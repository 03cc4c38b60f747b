//! The virtual machine: a stack of values, a global environment, and a
//! stack of call frames over byte-encoded chunks.
//!
//! The machine is driven one instruction at a time through [`VM::step`];
//! the contract of `step` states the exact effect of every instruction.
//! Work that is not a function of the bits the machine holds — the four
//! arithmetic operations on numbers, turning a number into its printed
//! text, reading the clock — is requested from the embedder: `step` returns
//! a [`VmStep`] naming what is needed, and the embedder answers through
//! [`VM::resume_number`] or [`VM::resume_text`].  Printed lines accumulate
//! in [`VM::output`].
//!
//! Malformed bytecode never panics the machine: an undecodable
//! instruction, an operand out of range or a starved stack end the run
//! with a runtime error, as does every type error the language defines.

use vstd::prelude::*;

use crate::chunk::OpCode;
use crate::chunk::line_lookup;
use crate::instr::Instr;
use crate::instr::decode_at;
use crate::num::negate_bits;
use crate::num::num_le;
use crate::num::num_lt;
use crate::num::num_less;
use crate::num::num_less_eq;
use crate::num::num_negate;
use crate::text::dec_str;
use crate::text::usize_to_string;
use crate::value::Function;
use crate::value::NativeFunction;
use crate::value::Value;
use crate::value::get_clock_native_func;
use crate::value::rc_clone;
use crate::value::spec_is_falsey;
use crate::value::value_eq;
use std::rc::Rc;

verus! {

/// A runtime error: its message, the source line appended.
pub struct RuntimeError {
    pub msg: String,
}

/// One call in flight: the function, the byte offset of the next
/// instruction in its chunk, and the stack index where its slots begin —
/// slot 0 aliases the callee itself.
pub struct CallFrame {
    pub function: Rc<Function>,
    pub ip: usize,
    pub slots_start_index: usize,
}

/// Which of the machine's four arithmetic requests an [`VmStep::Arith`]
/// carries.
#[derive(Clone, Copy, PartialEq, Eq, Structural, Debug)]
pub enum ArithOp {
    Add,
    Subtract,
    Multiply,
    Divide,
}

/// What the machine is waiting for after a step that asked the embedder
/// for work.
#[derive(Clone, Copy, PartialEq, Eq, Structural, Debug)]
pub enum Pending {
    /// Nothing: the machine can step.
    Idle,
    /// An arithmetic result; `resume_number` pushes it.
    Arith,
    /// The printed text of a number; `resume_text` appends it to the
    /// output.
    PrintNumber,
    /// The clock's reading; `resume_number` replaces the call's slots with
    /// it.
    NativeCall { argc: u8 },
}

/// What one step of the machine asks of its embedder.
pub enum VmStep {
    /// The instruction completed; step again.
    KeepGoing,
    /// Apply `op` to the two number bit patterns and hand the result's
    /// bits to `resume_number`.
    Arith { op: ArithOp, lhs: u64, rhs: u64 },
    /// Render the number's bits as text and hand it to `resume_text`.
    FormatNumber { bits: u64 },
    /// Read the clock and hand the seconds, as number bits, to
    /// `resume_number`.
    Clock,
    /// The program ended.
    Done,
    /// The program failed; the machine has reset its stacks.
    Fault(RuntimeError),
}

/// The machine.
pub struct VM {
    pub stack: Vec<Value>,
    pub globals: Vec<(String, Value)>,
    pub frames: Vec<CallFrame>,
    pub output: Vec<String>,
    pub pending: Pending,
}

/// The value bound to a name, if any: the first entry with that name.
pub open spec fn globals_lookup(g: Seq<(String, Value)>, name: Seq<char>) -> Option<Value>
    decreases g.len(),
{
    if g.len() == 0 {
        None
    } else if g[0].0@ == name {
        Some(g[0].1)
    } else {
        globals_lookup(g.drop_first(), name)
    }
}

/// Binding a name: the first entry with that name is given the new value,
/// or a new entry is appended.
pub open spec fn globals_set(g: Seq<(String, Value)>, name: String, v: Value) -> Seq<
    (String, Value),
>
    decreases g.len(),
{
    if g.len() == 0 {
        seq![(name, v)]
    } else if g[0].0@ == name@ {
        g.update(0, (g[0].0, v))
    } else {
        seq![g[0]] + globals_set(g.drop_first(), name, v)
    }
}

/// The source line recorded for byte offset `at` of a frame's chunk; 0
/// when the table does not cover it.
pub open spec fn frame_line(fr: CallFrame, at: int) -> int {
    match line_lookup(fr.function.chunk.line_info.info@, at) {
        Some(l) => l as int,
        None => 0,
    }
}

/// How a frame's function is named in an error report: `script` for the
/// top level, the function's own name otherwise.
pub open spec fn frame_fn_name(fr: CallFrame) -> Seq<char> {
    if fr.function.name@ == "<script>"@ {
        "script"@
    } else {
        fr.function.name@
    }
}

/// The chain of frames enclosing the topmost one, innermost first, one
/// `in NAME` line each; empty when only one frame is in flight.
pub open spec fn frames_chain(frames: Seq<CallFrame>) -> Seq<char>
    decreases frames.len(),
{
    if frames.len() <= 1 {
        Seq::empty()
    } else {
        "\nin "@ + frame_fn_name(frames[frames.len() - 2]) + frames_chain(frames.drop_last())
    }
}

/// A runtime error's full text: the message, the line reference with the
/// faulting frame's function, then the chain of enclosing frames.
pub open spec fn fault_text(m: Seq<char>, line: int, frames: Seq<CallFrame>) -> Seq<char> {
    m + "\n[line "@ + dec_str(line) + "] in "@ + frame_fn_name(frames.last()) + frames_chain(
        frames,
    )
}

/// What faulting at byte offset `at` leaves behind: the error named `m`
/// with the line read from the current chunk and the chain of frames in
/// flight, both stacks reset, the globals and output kept for inspection.
pub open spec fn faulted(pre: VM, post: VM, r: VmStep, m: Seq<char>, at: int) -> bool {
    &&& r matches VmStep::Fault(e) && e.msg@ == fault_text(
        m,
        frame_line(pre.frames@.last(), at),
        pre.frames@,
    )
    &&& post.stack@.len() == 0
    &&& post.frames@.len() == 0
    &&& post.globals@ == pre.globals@
    &&& post.output@ == pre.output@
    &&& post.pending is Idle
}

/// A frame at a new instruction offset.
pub open spec fn with_ip(f: CallFrame, ip: int) -> CallFrame {
    CallFrame { function: f.function, ip: ip as usize, slots_start_index: f.slots_start_index }
}

/// The top frame advanced to `ip`.
pub open spec fn frames_at(pre: VM, post: VM, ip: int) -> bool {
    post.frames@ == pre.frames@.update(
        pre.frames@.len() - 1,
        with_ip(pre.frames@.last(), ip),
    )
}

/// An ordinary instruction: the stack becomes `new_stack`, the top frame
/// moves to `ip`, everything else stays.
pub open spec fn stepped(pre: VM, post: VM, new_stack: Seq<Value>, ip: int) -> bool {
    &&& post.stack@ == new_stack
    &&& frames_at(pre, post, ip)
    &&& post.globals@ == pre.globals@
    &&& post.output@ == pre.output@
    &&& post.pending is Idle
}

/// The printed text of a value that is not a number: booleans print
/// `true`/`false`, strings print verbatim, the script function prints
/// `<script>`, other functions `<fn NAME>`.
pub open spec fn display_of(v: Value) -> Seq<char> {
    match v {
        Value::Boolean(b) => if b {
            "true"@
        } else {
            "false"@
        },
        Value::Str(s) => s@,
        Value::Function(f) => if f.name@ == "<script>"@ {
            "<script>"@
        } else {
            "<fn "@ + f.name@ + ">"@
        },
        Value::NativeFunction(nf) => "<fn "@ + nf.name@ + ">"@,
        Value::Number(_) => Seq::empty(),
    }
}

/// The exact effect of one instruction, by case on what the bytes at the
/// top frame's offset decode to.
pub open spec fn instr_rel(pre: VM, post: VM, r: VmStep, i: Instr) -> bool {
    let fr = pre.frames@.last();
    let consts = fr.function.chunk.constants@;
    let code_len = fr.function.chunk.code@.len() as int;
    let p = fr.ip as int;
    let s = pre.stack@;
    let n = s.len() as int;
    let b = fr.slots_start_index as int;
    match i {
        Instr::Constant(a) => {
            if (a as int) < consts.len() {
                r is KeepGoing && stepped(pre, post, s.push(consts[a as int]), p + 2)
            } else {
                faulted(pre, post, r, "Constant index out of range"@, p + 1)
            }
        },
        Instr::True => r is KeepGoing && stepped(pre, post, s.push(Value::Boolean(true)), p + 1),
        Instr::False => r is KeepGoing && stepped(
            pre,
            post,
            s.push(Value::Boolean(false)),
            p + 1,
        ),
        Instr::Negate => {
            if n == 0 {
                faulted(pre, post, r, "Tried to pop on empty stack"@, p)
            } else {
                match s.last() {
                    Value::Number(x) => r is KeepGoing && stepped(
                        pre,
                        post,
                        s.drop_last().push(Value::Number(negate_bits(x))),
                        p + 1,
                    ),
                    _ => faulted(pre, post, r, "Operand must be a number"@, p),
                }
            }
        },
        Instr::Not => {
            if n == 0 {
                faulted(pre, post, r, "Tried to pop on empty stack"@, p)
            } else {
                match s.last() {
                    Value::Boolean(x) => r is KeepGoing && stepped(
                        pre,
                        post,
                        s.drop_last().push(Value::Boolean(!x)),
                        p + 1,
                    ),
                    _ => faulted(pre, post, r, "Operand must be a boolean"@, p),
                }
            }
        },
        Instr::Add => {
            if n < 2 {
                faulted(pre, post, r, "Tried to pop on empty stack"@, p)
            } else {
                let x = s[n - 2];
                let y = s[n - 1];
                match x {
                    Value::Number(xb) => match y {
                        Value::Number(yb) => {
                            &&& r == (VmStep::Arith { op: ArithOp::Add, lhs: xb, rhs: yb })
                            &&& post.stack@ == s.take(n - 2)
                            &&& frames_at(pre, post, p + 1)
                            &&& post.globals@ == pre.globals@
                            &&& post.output@ == pre.output@
                            &&& post.pending is Arith
                        },
                        _ => faulted(
                            pre,
                            post,
                            r,
                            "Operands must be two numbers or two strings"@,
                            p,
                        ),
                    },
                    Value::Str(xs) => match y {
                        Value::Str(ys) => {
                            &&& r is KeepGoing
                            &&& post.stack@.len() == n - 1
                            &&& post.stack@.take(n - 2) == s.take(n - 2)
                            &&& (post.stack@.last() matches Value::Str(z) && z@ == xs@ + ys@)
                            &&& frames_at(pre, post, p + 1)
                            &&& post.globals@ == pre.globals@
                            &&& post.output@ == pre.output@
                            &&& post.pending is Idle
                        },
                        _ => faulted(
                            pre,
                            post,
                            r,
                            "Operands must be two numbers or two strings"@,
                            p,
                        ),
                    },
                    _ => faulted(pre, post, r, "Operands must be two numbers or two strings"@, p),
                }
            }
        },
        Instr::Subtract => arith_rel(pre, post, r, ArithOp::Subtract),
        Instr::Multiply => arith_rel(pre, post, r, ArithOp::Multiply),
        Instr::Divide => arith_rel(pre, post, r, ArithOp::Divide),
        Instr::EqualEqual => {
            if n < 2 {
                faulted(pre, post, r, "Tried to pop on empty stack"@, p)
            } else {
                r is KeepGoing && stepped(
                    pre,
                    post,
                    s.take(n - 2).push(Value::Boolean(value_eq(s[n - 2], s[n - 1]))),
                    p + 1,
                )
            }
        },
        Instr::BangEqual => {
            if n < 2 {
                faulted(pre, post, r, "Tried to pop on empty stack"@, p)
            } else {
                r is KeepGoing && stepped(
                    pre,
                    post,
                    s.take(n - 2).push(Value::Boolean(!value_eq(s[n - 2], s[n - 1]))),
                    p + 1,
                )
            }
        },
        Instr::Less => compare_rel(pre, post, r, true, false),
        Instr::LessEqual => compare_rel(pre, post, r, true, true),
        Instr::Greater => compare_rel(pre, post, r, false, false),
        Instr::GreaterEqual => compare_rel(pre, post, r, false, true),
        Instr::Print => {
            if n == 0 {
                faulted(pre, post, r, "Tried to pop on empty stack"@, p)
            } else {
                match s.last() {
                    Value::Number(x) => {
                        &&& r == (VmStep::FormatNumber { bits: x })
                        &&& post.stack@ == s.drop_last()
                        &&& frames_at(pre, post, p + 1)
                        &&& post.globals@ == pre.globals@
                        &&& post.output@ == pre.output@
                        &&& post.pending is PrintNumber
                    },
                    _ => {
                        &&& r is KeepGoing
                        &&& post.stack@ == s.drop_last()
                        &&& frames_at(pre, post, p + 1)
                        &&& post.globals@ == pre.globals@
                        &&& post.output@.len() == pre.output@.len() + 1
                        &&& post.output@.take(pre.output@.len() as int) == pre.output@
                        &&& post.output@.last()@ == display_of(s.last())
                        &&& post.pending is Idle
                    },
                }
            }
        },
        Instr::Pop => {
            if n == 0 {
                faulted(pre, post, r, "Tried to pop on empty stack"@, p)
            } else {
                r is KeepGoing && stepped(pre, post, s.drop_last(), p + 1)
            }
        },
        Instr::PopN(c) => {
            if (c as int) > n {
                faulted(pre, post, r, "popN on insufficient stack"@, p + 1)
            } else {
                r is KeepGoing && stepped(pre, post, s.take(n - (c as int)), p + 2)
            }
        },
        Instr::DefineGlobal(a) => {
            if (a as int) >= consts.len() {
                faulted(pre, post, r, "Constant index out of range"@, p + 1)
            } else if n == 0 {
                faulted(pre, post, r, "Tried to pop on empty stack"@, p + 1)
            } else {
                match consts[a as int] {
                    Value::Str(name) => {
                        &&& r is KeepGoing
                        &&& post.stack@ == s.drop_last()
                        &&& frames_at(pre, post, p + 2)
                        &&& post.globals@ == globals_set(pre.globals@, name, s.last())
                        &&& post.output@ == pre.output@
                        &&& post.pending is Idle
                    },
                    _ => faulted(pre, post, r, "Expected string constant"@, p + 1),
                }
            }
        },
        Instr::GetGlobal(a) => {
            if (a as int) >= consts.len() {
                faulted(pre, post, r, "Constant index out of range"@, p + 1)
            } else {
                match consts[a as int] {
                    Value::Str(name) => match globals_lookup(pre.globals@, name@) {
                        Some(v) => r is KeepGoing && stepped(pre, post, s.push(v), p + 2),
                        None => faulted(
                            pre,
                            post,
                            r,
                            "Undefined variable '"@ + name@ + "'"@,
                            p + 1,
                        ),
                    },
                    _ => faulted(pre, post, r, "Expected string constant"@, p + 1),
                }
            }
        },
        Instr::SetGlobal(a) => {
            if (a as int) >= consts.len() {
                faulted(pre, post, r, "Constant index out of range"@, p + 1)
            } else if n == 0 {
                faulted(pre, post, r, "Tried to pop on empty stack"@, p + 1)
            } else {
                match consts[a as int] {
                    Value::Str(name) => {
                        if globals_lookup(pre.globals@, name@) is Some {
                            &&& r is KeepGoing
                            &&& post.stack@ == s
                            &&& frames_at(pre, post, p + 2)
                            &&& post.globals@ == globals_set(pre.globals@, name, s.last())
                            &&& post.output@ == pre.output@
                            &&& post.pending is Idle
                        } else {
                            faulted(
                                pre,
                                post,
                                r,
                                "Cannot assign undefined variable "@ + name@ + "."@,
                                p + 1,
                            )
                        }
                    },
                    _ => faulted(pre, post, r, "Expected string constant"@, p + 1),
                }
            }
        },
        Instr::GetLocal(slot) => {
            if b + slot >= n {
                faulted(pre, post, r, "Local slot out of range"@, p + 1)
            } else {
                r is KeepGoing && stepped(pre, post, s.push(s[b + slot]), p + 2)
            }
        },
        Instr::SetLocal(slot) => {
            if n == 0 {
                faulted(pre, post, r, "Tried to pop on empty stack"@, p + 1)
            } else if b + slot >= n {
                faulted(pre, post, r, "Local slot out of range"@, p + 1)
            } else {
                r is KeepGoing && stepped(pre, post, s.update(b + slot, s.last()), p + 2)
            }
        },
        Instr::Jump(d) => {
            if p + 3 + d > code_len {
                faulted(pre, post, r, "Jump target out of range"@, p + 2)
            } else {
                r is KeepGoing && stepped(pre, post, s, p + 3 + d)
            }
        },
        Instr::JumpIfTrue(d) => {
            if n == 0 {
                faulted(pre, post, r, "Tried to pop on empty stack"@, p + 2)
            } else if p + 3 + d > code_len {
                faulted(pre, post, r, "Jump target out of range"@, p + 2)
            } else {
                let t = if !spec_is_falsey(s.last()) {
                    p + 3 + d
                } else {
                    p + 3
                };
                r is KeepGoing && stepped(pre, post, s, t)
            }
        },
        Instr::JumpIfFalse(d) => {
            if n == 0 {
                faulted(pre, post, r, "Tried to pop on empty stack"@, p + 2)
            } else if p + 3 + d > code_len {
                faulted(pre, post, r, "Jump target out of range"@, p + 2)
            } else {
                let t = if spec_is_falsey(s.last()) {
                    p + 3 + d
                } else {
                    p + 3
                };
                r is KeepGoing && stepped(pre, post, s, t)
            }
        },
        Instr::Loop(d) => {
            if (d as int) > p + 3 {
                faulted(pre, post, r, "Loop target out of range"@, p + 2)
            } else {
                r is KeepGoing && stepped(pre, post, s, p + 3 - d)
            }
        },
        Instr::Call(argc) => {
            if n < argc + 1 {
                faulted(pre, post, r, "Tried to pop on empty stack"@, p + 1)
            } else {
                match s[n - 1 - argc] {
                    Value::Function(f) => {
                        if f.arity != argc as usize {
                            faulted(pre, post, r, arity_msg(f.arity as int, argc as int), p + 1)
                        } else if pre.frames@.len() >= 64 {
                            faulted(pre, post, r, "Stack overflow"@, p + 1)
                        } else {
                            &&& r is KeepGoing
                            &&& post.stack@ == s
                            &&& post.frames@ == pre.frames@.update(
                                pre.frames@.len() - 1,
                                with_ip(fr, p + 2),
                            ).push(
                                (CallFrame {
                                    function: f,
                                    ip: 0,
                                    slots_start_index: (n - 1 - argc) as usize,
                                }),
                            )
                            &&& post.globals@ == pre.globals@
                            &&& post.output@ == pre.output@
                            &&& post.pending is Idle
                        }
                    },
                    Value::NativeFunction(nf) => {
                        if nf.arity != argc as usize {
                            faulted(pre, post, r, arity_msg(nf.arity as int, argc as int), p + 1)
                        } else {
                            &&& r is Clock
                            &&& post.stack@ == s
                            &&& frames_at(pre, post, p + 2)
                            &&& post.globals@ == pre.globals@
                            &&& post.output@ == pre.output@
                            &&& post.pending == (Pending::NativeCall { argc })
                        }
                    },
                    _ => faulted(pre, post, r, "Can only call functions"@, p + 1),
                }
            }
        },
        Instr::Return => {
            if n == 0 {
                faulted(pre, post, r, "Tried to pop on empty stack"@, p)
            } else if b > n - 1 {
                faulted(pre, post, r, "Stack underflow on return"@, p)
            } else {
                &&& post.stack@ == s.take(b).push(s.last())
                &&& post.frames@ == pre.frames@.drop_last()
                &&& post.globals@ == pre.globals@
                &&& post.output@ == pre.output@
                &&& post.pending is Idle
                &&& r == if pre.frames@.len() == 1 {
                    VmStep::Done
                } else {
                    VmStep::KeepGoing
                }
            }
        },
        Instr::Eof => {
            &&& r is Done
            &&& post.stack@ == s
            &&& post.frames@.len() == 0
            &&& post.globals@ == pre.globals@
            &&& post.output@ == pre.output@
            &&& post.pending is Idle
        },
    }
}

/// A numeric binary operator: both operands must be numbers; the machine
/// hands their bits to the embedder and waits for the result.
pub open spec fn arith_rel(pre: VM, post: VM, r: VmStep, op: ArithOp) -> bool {
    let fr = pre.frames@.last();
    let p = fr.ip as int;
    let s = pre.stack@;
    let n = s.len() as int;
    if n < 2 {
        faulted(pre, post, r, "Tried to pop on empty stack"@, p)
    } else {
        match s[n - 2] {
            Value::Number(xb) => match s[n - 1] {
                Value::Number(yb) => {
                    &&& r == (VmStep::Arith { op, lhs: xb, rhs: yb })
                    &&& post.stack@ == s.take(n - 2)
                    &&& frames_at(pre, post, p + 1)
                    &&& post.globals@ == pre.globals@
                    &&& post.output@ == pre.output@
                    &&& post.pending is Arith
                },
                _ => faulted(pre, post, r, "Operands must be numbers"@, p),
            },
            _ => faulted(pre, post, r, "Operands must be numbers"@, p),
        }
    }
}

/// A numeric comparison: both operands must be numbers; the result is the
/// IEEE ordering of their encoded values (`lt`/`le`, or swapped for the
/// `greater` forms).
pub open spec fn compare_rel(pre: VM, post: VM, r: VmStep, forward: bool, or_equal: bool) -> bool {
    let fr = pre.frames@.last();
    let p = fr.ip as int;
    let s = pre.stack@;
    let n = s.len() as int;
    if n < 2 {
        faulted(pre, post, r, "Tried to pop on empty stack"@, p)
    } else {
        match s[n - 2] {
            Value::Number(xb) => match s[n - 1] {
                Value::Number(yb) => {
                    let c = if forward {
                        if or_equal {
                            num_le(xb, yb)
                        } else {
                            num_lt(xb, yb)
                        }
                    } else {
                        if or_equal {
                            num_le(yb, xb)
                        } else {
                            num_lt(yb, xb)
                        }
                    };
                    r is KeepGoing && stepped(
                        pre,
                        post,
                        s.take(n - 2).push(Value::Boolean(c)),
                        p + 1,
                    )
                },
                _ => faulted(pre, post, r, "Operands must be numbers"@, p),
            },
            _ => faulted(pre, post, r, "Operands must be numbers"@, p),
        }
    }
}

/// The text of an arity error.
pub open spec fn arity_msg(arity: int, argc: int) -> Seq<char> {
    "Expected "@ + dec_str(arity) + " arguments but got "@ + dec_str(argc)
}

/// The language's `==` and `!=` always agree: on any two operands, what
/// the equality instruction pushes and what the inequality instruction
/// pushes are each other's negation.
pub proof fn lemma_equality_opcodes_consistent(
    pre: VM,
    post1: VM,
    r1: VmStep,
    post2: VM,
    r2: VmStep,
)
    requires
        pre.frames@.len() > 0,
        pre.stack@.len() >= 2,
        instr_rel(pre, post1, r1, Instr::EqualEqual),
        instr_rel(pre, post2, r2, Instr::BangEqual),
    ensures
        post1.stack@.last() == Value::Boolean(
            value_eq(pre.stack@[pre.stack@.len() - 2], pre.stack@[pre.stack@.len() - 1]),
        ),
        post2.stack@.last() == Value::Boolean(
            !value_eq(pre.stack@[pre.stack@.len() - 2], pre.stack@[pre.stack@.len() - 1]),
        ),
{
}

/// The net stack effect of each instruction that completes within the
/// machine in one step: loads push one value, the operators that consume
/// two values and leave one net minus one, stores and jumps are neutral.
pub open spec fn net_stack_effect(i: Instr) -> int {
    match i {
        Instr::Constant(_) => 1,
        Instr::True => 1,
        Instr::False => 1,
        Instr::GetLocal(_) => 1,
        Instr::GetGlobal(_) => 1,
        Instr::Add => -1,
        Instr::EqualEqual => -1,
        Instr::BangEqual => -1,
        Instr::Less => -1,
        Instr::LessEqual => -1,
        Instr::Greater => -1,
        Instr::GreaterEqual => -1,
        Instr::Print => -1,
        Instr::Pop => -1,
        Instr::DefineGlobal(_) => -1,
        Instr::PopN(c) => -(c as int),
        _ => 0,
    }
}

/// Stack discipline, one instruction at a time: every instruction that
/// completes within the machine in one step moves the stack depth by
/// exactly its net effect.  (`RETURN` moves between frames and is
/// accounted separately; the arithmetic requests complete when
/// `resume_number` pushes the result, netting minus one like the other
/// binary operators.)
pub proof fn lemma_step_stack_discipline(pre: VM, post: VM, r: VmStep, i: Instr)
    requires
        pre.frames@.len() > 0,
        instr_rel(pre, post, r, i),
        r is KeepGoing,
        !(i is Return),
    ensures
        post.stack@.len() == pre.stack@.len() + net_stack_effect(i),
{
}

/// Binding a name that `i` locates (no earlier entry has it) updates
/// entry `i` in place.
proof fn lemma_globals_set_at(g: Seq<(String, Value)>, name: String, v: Value, i: int)
    requires
        0 <= i < g.len(),
        g[i].0@ == name@,
        forall|j: int| 0 <= j < i ==> (#[trigger] g[j]).0@ != name@,
    ensures
        globals_set(g, name, v) == g.update(i, (g[i].0, v)),
    decreases i,
{
    if i == 0 {
    } else {
        assert(g[0].0@ != name@);
        lemma_globals_set_at(g.drop_first(), name, v, i - 1);
        assert(g.drop_first()[i - 1] == g[i]);
        assert(seq![g[0]] + g.drop_first().update(i - 1, (g[i].0, v)) =~= g.update(
            i,
            (g[i].0, v),
        ));
    }
}

/// Binding an absent name appends it.
proof fn lemma_globals_set_absent(g: Seq<(String, Value)>, name: String, v: Value)
    requires
        globals_lookup(g, name@) is None,
    ensures
        globals_set(g, name, v) == g.push((name, v)),
    decreases g.len(),
{
    if g.len() == 0 {
        assert(seq![(name, v)] =~= g.push((name, v)));
    } else {
        lemma_globals_set_absent(g.drop_first(), name, v);
        assert(seq![g[0]] + g.drop_first().push((name, v)) =~= g.push((name, v)));
    }
}

impl VM {
    /// A fresh machine: empty stacks, the built-in `clock` pre-defined in
    /// the globals.
    pub fn new() -> (vm: VM)
        ensures
            vm.stack@.len() == 0,
            vm.frames@.len() == 0,
            vm.output@.len() == 0,
            vm.pending is Idle,
            vm.globals@.len() == 1,
            vm.globals@[0].0@ == "clock"@,
            vm.globals@[0].1 matches Value::NativeFunction(nf) && nf.arity == 0 && nf.name@
                == "clock"@,
    {
        let mut globals: Vec<(String, Value)> = Vec::new();
        globals.push(
            (String::from_str("clock"), Value::NativeFunction(get_clock_native_func())),
        );
        VM {
            stack: Vec::new(),
            globals,
            frames: Vec::new(),
            output: Vec::new(),
            pending: Pending::Idle,
        }
    }

    /// Installs a compiled script: the function itself in the next stack
    /// slot, and a frame for it whose slots begin there.  The embedder then
    /// drives [`VM::step`] until `Done` or `Fault`.
    pub fn interpret(&mut self, script_function: Function)
        ensures
            final(self).stack@.len() == old(self).stack@.len() + 1,
            final(self).stack@.take(old(self).stack@.len() as int) == old(self).stack@,
            final(self).stack@.last() matches Value::Function(f) && *f == script_function,
            final(self).frames@ == old(self).frames@.push(
                (CallFrame {
                    function: final(self).stack@.last()->Function_0,
                    ip: 0,
                    slots_start_index: old(self).stack@.len() as usize,
                }),
            ),
            final(self).globals@ == old(self).globals@,
            final(self).output@ == old(self).output@,
            final(self).pending == old(self).pending,
    {
        let base = self.stack.len();
        let rc = Rc::new(script_function);
        self.stack.push(Value::Function(rc_clone(&rc)));
        self.frames.push(CallFrame { function: rc, ip: 0, slots_start_index: base });
        proof {
            assert(final(self).stack@.take(old(self).stack@.len() as int) =~= old(self).stack@);
        }
    }

    /// Moves the top frame to a new instruction offset.
    fn set_ip(&mut self, new_ip: usize)
        requires
            old(self).frames@.len() > 0,
        ensures
            final(self).frames@ == old(self).frames@.update(
                old(self).frames@.len() - 1,
                with_ip(old(self).frames@.last(), new_ip as int),
            ),
            final(self).stack@ == old(self).stack@,
            final(self).globals@ == old(self).globals@,
            final(self).output@ == old(self).output@,
            final(self).pending == old(self).pending,
    {
        let fr = match self.frames.pop() {
            Some(f) => f,
            None => {
                return ;
            },
        };
        let nf = CallFrame {
            function: fr.function,
            ip: new_ip,
            slots_start_index: fr.slots_start_index,
        };
        self.frames.push(nf);
        proof {
            assert(old(self).frames@.drop_last().push(nf) =~= old(self).frames@.update(
                old(self).frames@.len() - 1,
                with_ip(old(self).frames@.last(), new_ip as int),
            ));
        }
    }

    /// The reporting name of the frame at `i`.
    fn frame_name_text(&self, i: usize) -> (r: String)
        requires
            i < self.frames@.len(),
        ensures
            r@ == frame_fn_name(self.frames@[i as int]),
    {
        let nm = self.frames[i].function.name.clone();
        if nm == String::from_str("<script>") {
            String::from_str("script")
        } else {
            nm
        }
    }

    /// Ends the run with a runtime error: the message gains the source
    /// line of byte offset `at` in the running chunk and the chain of
    /// frames in flight, and both stacks are reset.
    fn fault(&mut self, msg: String, at: usize) -> (r: VmStep)
        requires
            old(self).frames@.len() > 0,
        ensures
            faulted(*old(self), *final(self), r, msg@, at as int),
    {
        let ghost target = fault_text(
            msg@,
            frame_line(old(self).frames@.last(), at as int),
            old(self).frames@,
        );
        let fi = self.frames.len() - 1;
        let line = match self.frames[fi].function.chunk.line_info.get_lineno(at) {
            Some(l) => l,
            None => 0,
        };
        let mut m = msg;
        m.append("\n[line ");
        let ls = usize_to_string(line);
        m.append(ls.as_str());
        m.append("] in ");
        let top_name = self.frame_name_text(fi);
        m.append(top_name.as_str());
        proof {
            assert(self.frames@.take(fi as int + 1) =~= self.frames@);
        }
        // the enclosing frames, innermost first
        let mut i: usize = fi;
        #[verifier::loop_isolation(false)]
        while i > 0
            invariant
                i <= fi,
                *self == *old(self),
                m@ + frames_chain(self.frames@.take(i as int + 1)) == target,
            decreases i,
        {
            proof {
                let part = self.frames@.take(i as int + 1);
                assert(part[i as int - 1] == self.frames@[i as int - 1]);
                assert(part.drop_last() =~= self.frames@.take(i as int));
            }
            m.append("\nin ");
            let name = self.frame_name_text(i - 1);
            m.append(name.as_str());
            proof {
                assert(m@ + frames_chain(self.frames@.take(i as int)) =~= target);
            }
            i = i - 1;
        }
        proof {
            assert(frames_chain(self.frames@.take(1)) =~= Seq::<char>::empty());
            assert(m@ =~= target);
        }
        self.stack.clear();
        self.frames.clear();
        self.pending = Pending::Idle;
        VmStep::Fault(RuntimeError { msg: m })
    }

    /// The index of the entry binding `name`, if any.
    fn find_global(&self, name: &String) -> (r: Option<usize>)
        ensures
            match r {
                Some(i) => i < self.globals@.len() && self.globals@[i as int].0@ == name@
                    && globals_lookup(self.globals@, name@) == Some(self.globals@[i as int].1)
                    && (forall|j: int|
                    0 <= j < i ==> (#[trigger] self.globals@[j]).0@ != name@),
                None => globals_lookup(self.globals@, name@) is None,
            },
    {
        let ghost whole = self.globals@;
        let mut i: usize = 0;
        proof {
            assert(whole.skip(0) =~= whole);
        }
        #[verifier::loop_isolation(false)]
        while i < self.globals.len()
            invariant
                i <= self.globals@.len(),
                globals_lookup(whole, name@) == globals_lookup(whole.skip(i as int), name@),
                forall|j: int| 0 <= j < i ==> (#[trigger] whole[j]).0@ != name@,
            decreases self.globals@.len() - i,
        {
            proof {
                assert(whole.skip(i as int)[0] == whole[i as int]);
                assert(whole.skip(i as int).drop_first() =~= whole.skip(i as int + 1));
            }
            if self.globals[i].0 == *name {
                return Some(i);
            }
            i = i + 1;
        }
        None
    }

    /// Binds `name` to `v`: overwrites the entry holding it, or appends
    /// one.
    fn define_global(&mut self, name: String, v: Value)
        ensures
            final(self).globals@ == globals_set(old(self).globals@, name, v),
            final(self).stack@ == old(self).stack@,
            final(self).frames@ == old(self).frames@,
            final(self).output@ == old(self).output@,
            final(self).pending == old(self).pending,
    {
        let found = self.find_global(&name);
        match found {
            Some(i) => {
                let entry = self.globals.remove(i);
                self.globals.insert(i, (entry.0, v));
                proof {
                    lemma_globals_set_at(old(self).globals@, name, v, i as int);
                    assert(old(self).globals@.remove(i as int).insert(
                        i as int,
                        (old(self).globals@[i as int].0, v),
                    ) =~= old(self).globals@.update(
                        i as int,
                        (old(self).globals@[i as int].0, v),
                    ));
                }
            },
            None => {
                self.globals.push((name, v));
                proof {
                    lemma_globals_set_absent(old(self).globals@, name, v);
                }
            },
        }
    }

    /// Hands back a number the machine asked for: the result of an
    /// arithmetic request is pushed; the clock's reading replaces the
    /// call's slots.
    pub fn resume_number(&mut self, bits: u64)
        requires
            old(self).pending is Arith || old(self).pending matches Pending::NativeCall { .. },
            match old(self).pending {
                Pending::NativeCall { argc } => old(self).stack@.len() >= argc as int + 1,
                _ => true,
            },
        ensures
            final(self).pending is Idle,
            final(self).frames@ == old(self).frames@,
            final(self).globals@ == old(self).globals@,
            final(self).output@ == old(self).output@,
            match old(self).pending {
                Pending::Arith => final(self).stack@ == old(self).stack@.push(
                    Value::Number(bits),
                ),
                Pending::NativeCall { argc } => final(self).stack@ == old(self).stack@.take(
                    old(self).stack@.len() - argc - 1,
                ).push(Value::Number(bits)),
                _ => true,
            },
    {
        match self.pending {
            Pending::Arith => {
                self.stack.push(Value::Number(bits));
            },
            Pending::NativeCall { argc } => {
                let new_len = self.stack.len() - argc as usize - 1;
                self.stack.truncate(new_len);
                self.stack.push(Value::Number(bits));
            },
            _ => {},
        }
        self.pending = Pending::Idle;
    }

    /// Pops the top of the stack.  Callers check the stack is nonempty
    /// first; the fallback value in the impossible branch is never
    /// produced.
    fn pop_value(&mut self) -> (r: Value)
        requires
            old(self).stack@.len() > 0,
        ensures
            r == old(self).stack@.last(),
            final(self).stack@ == old(self).stack@.drop_last(),
            final(self).frames@ == old(self).frames@,
            final(self).globals@ == old(self).globals@,
            final(self).output@ == old(self).output@,
            final(self).pending == old(self).pending,
    {
        match self.stack.pop() {
            Some(v) => v,
            None => Value::Boolean(false),
        }
    }

    /// A numeric binary operator: pops two numbers and asks the embedder
    /// for the result.
    fn arith_op(&mut self, op: ArithOp) -> (r: VmStep)
        requires
            old(self).frames@.len() > 0,
            old(self).pending is Idle,
            old(self).frames@.last().ip < usize::MAX,
        ensures
            arith_rel(*old(self), *final(self), r, op),
    {
        let ip = self.frames[self.frames.len() - 1].ip;
        if self.stack.len() < 2 {
            return self.fault(String::from_str("Tried to pop on empty stack"), ip);
        }
        let ghost s = self.stack@;
        let yv = self.pop_value();
        let xv = self.pop_value();
        proof {
            assert(s.drop_last().drop_last() =~= s.take(s.len() - 2));
        }
        match xv {
            Value::Number(xb) => match yv {
                Value::Number(yb) => {
                    self.set_ip(ip + 1);
                    self.pending = Pending::Arith;
                    VmStep::Arith { op, lhs: xb, rhs: yb }
                },
                _ => self.fault(String::from_str("Operands must be numbers"), ip),
            },
            _ => self.fault(String::from_str("Operands must be numbers"), ip),
        }
    }

    /// A numeric comparison: pops two numbers and pushes the IEEE ordering
    /// of their encoded values.
    fn compare_op(&mut self, forward: bool, or_equal: bool) -> (r: VmStep)
        requires
            old(self).frames@.len() > 0,
            old(self).pending is Idle,
            old(self).frames@.last().ip < usize::MAX,
        ensures
            compare_rel(*old(self), *final(self), r, forward, or_equal),
    {
        let ip = self.frames[self.frames.len() - 1].ip;
        if self.stack.len() < 2 {
            return self.fault(String::from_str("Tried to pop on empty stack"), ip);
        }
        let ghost s = self.stack@;
        let yv = self.pop_value();
        let xv = self.pop_value();
        proof {
            assert(s.drop_last().drop_last() =~= s.take(s.len() - 2));
        }
        match xv {
            Value::Number(xb) => match yv {
                Value::Number(yb) => {
                    let c = if forward {
                        if or_equal {
                            num_less_eq(xb, yb)
                        } else {
                            num_less(xb, yb)
                        }
                    } else {
                        if or_equal {
                            num_less_eq(yb, xb)
                        } else {
                            num_less(yb, xb)
                        }
                    };
                    self.stack.push(Value::Boolean(c));
                    self.set_ip(ip + 1);
                    VmStep::KeepGoing
                },
                _ => self.fault(String::from_str("Operands must be numbers"), ip),
            },
            _ => self.fault(String::from_str("Operands must be numbers"), ip),
        }
    }

    /// Executes one instruction of the top frame.  With no frame left the
    /// program is over.  The returned [`VmStep`] says whether to keep
    /// stepping, answer a request first, or stop; the exact effect of every
    /// instruction is [`step_rel`].
    #[verifier::rlimit(100)]
    pub fn step(&mut self) -> (r: VmStep)
        requires
            old(self).pending is Idle,
        ensures
            step_rel(*old(self), *final(self), r),
    {
        if self.frames.len() == 0 {
            return VmStep::Done;
        }
        let fi = self.frames.len() - 1;
        let ip = self.frames[fi].ip;
        let base = self.frames[fi].slots_start_index;
        let func = rc_clone(&self.frames[fi].function);
        let code_len = func.chunk.count();
        if ip >= code_len {
            let at = if ip == 0 {
                0
            } else {
                ip - 1
            };
            return self.fault(String::from_str("Ran past the end of the chunk"), at);
        }
        let byte = func.chunk.read_byte(ip);
        let op = match OpCode::try_from(byte) {
            Ok(op) => op,
            Err(()) => {
                return self.fault(String::from_str("Unknown opcode"), ip);
            },
        };
        match op {
            OpCode::OpTrue => {
                self.stack.push(Value::Boolean(true));
                self.set_ip(ip + 1);
                VmStep::KeepGoing
            },
            OpCode::OpFalse => {
                self.stack.push(Value::Boolean(false));
                self.set_ip(ip + 1);
                VmStep::KeepGoing
            },
            OpCode::OpNegate => {
                let v = match self.stack.pop() {
                    Some(v) => v,
                    None => {
                        return self.fault(String::from_str("Tried to pop on empty stack"), ip);
                    },
                };
                match v {
                    Value::Number(x) => {
                        self.stack.push(Value::Number(num_negate(x)));
                        self.set_ip(ip + 1);
                        VmStep::KeepGoing
                    },
                    _ => self.fault(String::from_str("Operand must be a number"), ip),
                }
            },
            OpCode::OpNot => {
                let v = match self.stack.pop() {
                    Some(v) => v,
                    None => {
                        return self.fault(String::from_str("Tried to pop on empty stack"), ip);
                    },
                };
                match v {
                    Value::Boolean(x) => {
                        self.stack.push(Value::Boolean(!x));
                        self.set_ip(ip + 1);
                        VmStep::KeepGoing
                    },
                    _ => self.fault(String::from_str("Operand must be a boolean"), ip),
                }
            },
            OpCode::OpAdd => {
                if self.stack.len() < 2 {
                    return self.fault(String::from_str("Tried to pop on empty stack"), ip);
                }
                let ghost s = self.stack@;
                let yv = self.pop_value();
                let xv = self.pop_value();
                proof {
                    assert(s.drop_last().drop_last() =~= s.take(s.len() - 2));
                }
                match xv {
                    Value::Number(xb) => match yv {
                        Value::Number(yb) => {
                            self.set_ip(ip + 1);
                            self.pending = Pending::Arith;
                            VmStep::Arith { op: ArithOp::Add, lhs: xb, rhs: yb }
                        },
                        _ => self.fault(
                            String::from_str("Operands must be two numbers or two strings"),
                            ip,
                        ),
                    },
                    Value::Str(xs) => match yv {
                        Value::Str(ys) => {
                            let joined = xs.concat(ys.as_str());
                            self.stack.push(Value::Str(joined));
                            proof {
                                assert(self.stack@.take(s.len() - 2) =~= s.take(s.len() - 2));
                            }
                            self.set_ip(ip + 1);
                            VmStep::KeepGoing
                        },
                        _ => self.fault(
                            String::from_str("Operands must be two numbers or two strings"),
                            ip,
                        ),
                    },
                    _ => self.fault(
                        String::from_str("Operands must be two numbers or two strings"),
                        ip,
                    ),
                }
            },
            OpCode::OpSubtract => self.arith_op(ArithOp::Subtract),
            OpCode::OpMultiply => self.arith_op(ArithOp::Multiply),
            OpCode::OpDivide => self.arith_op(ArithOp::Divide),
            OpCode::OpEqualEqual => {
                if self.stack.len() < 2 {
                    return self.fault(String::from_str("Tried to pop on empty stack"), ip);
                }
                let ghost s = self.stack@;
                let yv = self.pop_value();
                let xv = self.pop_value();
                proof {
                    assert(s.drop_last().drop_last() =~= s.take(s.len() - 2));
                }
                let eq = xv.equals(&yv);
                self.stack.push(Value::Boolean(eq));
                self.set_ip(ip + 1);
                VmStep::KeepGoing
            },
            OpCode::OpBangEqual => {
                if self.stack.len() < 2 {
                    return self.fault(String::from_str("Tried to pop on empty stack"), ip);
                }
                let ghost s = self.stack@;
                let yv = self.pop_value();
                let xv = self.pop_value();
                proof {
                    assert(s.drop_last().drop_last() =~= s.take(s.len() - 2));
                }
                let eq = xv.equals(&yv);
                self.stack.push(Value::Boolean(!eq));
                self.set_ip(ip + 1);
                VmStep::KeepGoing
            },
            OpCode::OpLess => self.compare_op(true, false),
            OpCode::OpLessEqual => self.compare_op(true, true),
            OpCode::OpGreater => self.compare_op(false, false),
            OpCode::OpGreaterEqual => self.compare_op(false, true),
            OpCode::OpPrint => {
                let v = match self.stack.pop() {
                    Some(v) => v,
                    None => {
                        return self.fault(String::from_str("Tried to pop on empty stack"), ip);
                    },
                };
                match v {
                    Value::Number(x) => {
                        self.set_ip(ip + 1);
                        self.pending = Pending::PrintNumber;
                        VmStep::FormatNumber { bits: x }
                    },
                    Value::Boolean(x) => {
                        let line = if x {
                            String::from_str("true")
                        } else {
                            String::from_str("false")
                        };
                        self.output.push(line);
                        self.set_ip(ip + 1);
                        proof {
                            assert(final(self).output@.take(old(self).output@.len() as int)
                                =~= old(self).output@);
                        }
                        VmStep::KeepGoing
                    },
                    Value::Str(s) => {
                        self.output.push(s);
                        self.set_ip(ip + 1);
                        proof {
                            assert(final(self).output@.take(old(self).output@.len() as int)
                                =~= old(self).output@);
                        }
                        VmStep::KeepGoing
                    },
                    Value::Function(f) => {
                        let nm = f.name.clone();
                        let line = if nm == String::from_str("<script>") {
                            String::from_str("<script>")
                        } else {
                            let mut l = String::from_str("<fn ");
                            l.append(nm.as_str());
                            l.append(">");
                            l
                        };
                        self.output.push(line);
                        self.set_ip(ip + 1);
                        proof {
                            assert(final(self).output@.take(old(self).output@.len() as int)
                                =~= old(self).output@);
                        }
                        VmStep::KeepGoing
                    },
                    Value::NativeFunction(nf) => {
                        let mut l = String::from_str("<fn ");
                        l.append(nf.name.as_str());
                        l.append(">");
                        self.output.push(l);
                        self.set_ip(ip + 1);
                        proof {
                            assert(final(self).output@.take(old(self).output@.len() as int)
                                =~= old(self).output@);
                        }
                        VmStep::KeepGoing
                    },
                }
            },
            OpCode::OpPop => {
                match self.stack.pop() {
                    Some(_) => {},
                    None => {
                        return self.fault(String::from_str("Tried to pop on empty stack"), ip);
                    },
                }
                self.set_ip(ip + 1);
                VmStep::KeepGoing
            },
            OpCode::OpPopN => {
                if code_len - ip < 2 {
                    return self.fault(String::from_str("Truncated instruction"), ip);
                }
                let c = func.chunk.read_byte(ip + 1);
                if c as usize > self.stack.len() {
                    return self.fault(String::from_str("popN on insufficient stack"), ip + 1);
                }
                let new_len = self.stack.len() - c as usize;
                self.stack.truncate(new_len);
                self.set_ip(ip + 2);
                VmStep::KeepGoing
            },
            OpCode::OpDefineGlobal => {
                if code_len - ip < 2 {
                    return self.fault(String::from_str("Truncated instruction"), ip);
                }
                let a = func.chunk.read_byte(ip + 1);
                if a as usize >= func.chunk.constants.len() {
                    return self.fault(String::from_str("Constant index out of range"), ip + 1);
                }
                let value = match self.stack.pop() {
                    Some(v) => v,
                    None => {
                        return self.fault(
                            String::from_str("Tried to pop on empty stack"),
                            ip + 1,
                        );
                    },
                };
                let cv = func.chunk.read_constant(a);
                match cv {
                    Value::Str(name) => {
                        self.define_global(name, value);
                        self.set_ip(ip + 2);
                        VmStep::KeepGoing
                    },
                    _ => self.fault(String::from_str("Expected string constant"), ip + 1),
                }
            },
            OpCode::OpGetGlobal => {
                if code_len - ip < 2 {
                    return self.fault(String::from_str("Truncated instruction"), ip);
                }
                let a = func.chunk.read_byte(ip + 1);
                if a as usize >= func.chunk.constants.len() {
                    return self.fault(String::from_str("Constant index out of range"), ip + 1);
                }
                let cv = func.chunk.read_constant(a);
                match cv {
                    Value::Str(name) => {
                        let found = self.find_global(&name);
                        match found {
                            Some(i) => {
                                let v = self.globals[i].1.duplicate();
                                self.stack.push(v);
                                self.set_ip(ip + 2);
                                VmStep::KeepGoing
                            },
                            None => {
                                let mut m = String::from_str("Undefined variable '");
                                m.append(name.as_str());
                                m.append("'");
                                self.fault(m, ip + 1)
                            },
                        }
                    },
                    _ => self.fault(String::from_str("Expected string constant"), ip + 1),
                }
            },
            OpCode::OpSetGlobal => {
                if code_len - ip < 2 {
                    return self.fault(String::from_str("Truncated instruction"), ip);
                }
                let a = func.chunk.read_byte(ip + 1);
                if a as usize >= func.chunk.constants.len() {
                    return self.fault(String::from_str("Constant index out of range"), ip + 1);
                }
                if self.stack.len() == 0 {
                    return self.fault(String::from_str("Tried to pop on empty stack"), ip + 1);
                }
                let cv = func.chunk.read_constant(a);
                match cv {
                    Value::Str(name) => {
                        let found = self.find_global(&name);
                        match found {
                            Some(_) => {
                                let v = self.stack[self.stack.len() - 1].duplicate();
                                self.define_global(name, v);
                                self.set_ip(ip + 2);
                                VmStep::KeepGoing
                            },
                            None => {
                                let mut m = String::from_str(
                                    "Cannot assign undefined variable ",
                                );
                                m.append(name.as_str());
                                m.append(".");
                                self.fault(m, ip + 1)
                            },
                        }
                    },
                    _ => self.fault(String::from_str("Expected string constant"), ip + 1),
                }
            },
            OpCode::OpGetLocal => {
                if code_len - ip < 2 {
                    return self.fault(String::from_str("Truncated instruction"), ip);
                }
                let slot = func.chunk.read_byte(ip + 1);
                let n = self.stack.len();
                if base >= n || slot as usize >= n - base {
                    return self.fault(String::from_str("Local slot out of range"), ip + 1);
                }
                let v = self.stack[base + slot as usize].duplicate();
                self.stack.push(v);
                self.set_ip(ip + 2);
                VmStep::KeepGoing
            },
            OpCode::OpSetLocal => {
                if code_len - ip < 2 {
                    return self.fault(String::from_str("Truncated instruction"), ip);
                }
                let slot = func.chunk.read_byte(ip + 1);
                let n = self.stack.len();
                if n == 0 {
                    return self.fault(String::from_str("Tried to pop on empty stack"), ip + 1);
                }
                if base >= n || slot as usize >= n - base {
                    return self.fault(String::from_str("Local slot out of range"), ip + 1);
                }
                let v = self.stack[n - 1].duplicate();
                self.stack[base + slot as usize] = v;
                self.set_ip(ip + 2);
                VmStep::KeepGoing
            },
            OpCode::OpJump => {
                if code_len - ip < 3 {
                    return self.fault(String::from_str("Truncated instruction"), ip);
                }
                let hi = func.chunk.read_byte(ip + 1);
                let lo = func.chunk.read_byte(ip + 2);
                let d = (hi as u16) * 256 + (lo as u16);
                if d as usize > code_len - (ip + 3) {
                    return self.fault(String::from_str("Jump target out of range"), ip + 2);
                }
                self.set_ip(ip + 3 + d as usize);
                VmStep::KeepGoing
            },
            OpCode::OpJumpIfTrue => {
                if code_len - ip < 3 {
                    return self.fault(String::from_str("Truncated instruction"), ip);
                }
                let hi = func.chunk.read_byte(ip + 1);
                let lo = func.chunk.read_byte(ip + 2);
                let d = (hi as u16) * 256 + (lo as u16);
                if self.stack.len() == 0 {
                    return self.fault(String::from_str("Tried to pop on empty stack"), ip + 2);
                }
                if d as usize > code_len - (ip + 3) {
                    return self.fault(String::from_str("Jump target out of range"), ip + 2);
                }
                let truthy = self.stack[self.stack.len() - 1].is_truthy();
                if truthy {
                    self.set_ip(ip + 3 + d as usize);
                } else {
                    self.set_ip(ip + 3);
                }
                VmStep::KeepGoing
            },
            OpCode::OpJumpIfFalse => {
                if code_len - ip < 3 {
                    return self.fault(String::from_str("Truncated instruction"), ip);
                }
                let hi = func.chunk.read_byte(ip + 1);
                let lo = func.chunk.read_byte(ip + 2);
                let d = (hi as u16) * 256 + (lo as u16);
                if self.stack.len() == 0 {
                    return self.fault(String::from_str("Tried to pop on empty stack"), ip + 2);
                }
                if d as usize > code_len - (ip + 3) {
                    return self.fault(String::from_str("Jump target out of range"), ip + 2);
                }
                let falsey = self.stack[self.stack.len() - 1].is_falsey();
                if falsey {
                    self.set_ip(ip + 3 + d as usize);
                } else {
                    self.set_ip(ip + 3);
                }
                VmStep::KeepGoing
            },
            OpCode::OpLoop => {
                if code_len - ip < 3 {
                    return self.fault(String::from_str("Truncated instruction"), ip);
                }
                let hi = func.chunk.read_byte(ip + 1);
                let lo = func.chunk.read_byte(ip + 2);
                let d = (hi as u16) * 256 + (lo as u16);
                if d as usize > ip + 3 {
                    return self.fault(String::from_str("Loop target out of range"), ip + 2);
                }
                self.set_ip(ip + 3 - d as usize);
                VmStep::KeepGoing
            },
            OpCode::OpCall => {
                if code_len - ip < 2 {
                    return self.fault(String::from_str("Truncated instruction"), ip);
                }
                let argc = func.chunk.read_byte(ip + 1);
                let n = self.stack.len();
                if n < argc as usize + 1 {
                    return self.fault(String::from_str("Tried to pop on empty stack"), ip + 1);
                }
                let idx = n - 1 - argc as usize;
                let callee = self.stack[idx].duplicate();
                match callee {
                    Value::Function(f) => {
                        if f.arity != argc as usize {
                            let mut m = String::from_str("Expected ");
                            let a1 = usize_to_string(f.arity);
                            m.append(a1.as_str());
                            m.append(" arguments but got ");
                            let a2 = usize_to_string(argc as usize);
                            m.append(a2.as_str());
                            return self.fault(m, ip + 1);
                        }
                        if self.frames.len() >= 64 {
                            return self.fault(String::from_str("Stack overflow"), ip + 1);
                        }
                        self.set_ip(ip + 2);
                        self.frames.push(
                            CallFrame { function: f, ip: 0, slots_start_index: idx },
                        );
                        VmStep::KeepGoing
                    },
                    Value::NativeFunction(nf) => {
                        if nf.arity != argc as usize {
                            let mut m = String::from_str("Expected ");
                            let a1 = usize_to_string(nf.arity);
                            m.append(a1.as_str());
                            m.append(" arguments but got ");
                            let a2 = usize_to_string(argc as usize);
                            m.append(a2.as_str());
                            return self.fault(m, ip + 1);
                        }
                        self.set_ip(ip + 2);
                        self.pending = Pending::NativeCall { argc };
                        VmStep::Clock
                    },
                    _ => self.fault(String::from_str("Can only call functions"), ip + 1),
                }
            },
            OpCode::OpReturn => {
                let result = match self.stack.pop() {
                    Some(v) => v,
                    None => {
                        return self.fault(String::from_str("Tried to pop on empty stack"), ip);
                    },
                };
                if base > self.stack.len() {
                    return self.fault(String::from_str("Stack underflow on return"), ip);
                }
                proof {
                    assert(old(self).stack@.drop_last().take(base as int) =~= old(
                        self,
                    ).stack@.take(base as int));
                }
                self.stack.truncate(base);
                self.stack.push(result);
                let _ = self.frames.pop();
                if self.frames.len() == 0 {
                    VmStep::Done
                } else {
                    VmStep::KeepGoing
                }
            },
            OpCode::OpConstant => {
                if code_len - ip < 2 {
                    return self.fault(String::from_str("Truncated instruction"), ip);
                }
                let a = func.chunk.read_byte(ip + 1);
                if a as usize >= func.chunk.constants.len() {
                    return self.fault(String::from_str("Constant index out of range"), ip + 1);
                }
                let v = func.chunk.read_constant(a);
                self.stack.push(v);
                self.set_ip(ip + 2);
                VmStep::KeepGoing
            },
            OpCode::OpEof => {
                self.frames.clear();
                VmStep::Done
            },
        }
    }

    /// Hands back the printed text of the number the machine asked to
    /// print: it becomes the next output line.
    pub fn resume_text(&mut self, text: String)
        requires
            old(self).pending is PrintNumber,
        ensures
            final(self).pending is Idle,
            final(self).stack@ == old(self).stack@,
            final(self).frames@ == old(self).frames@,
            final(self).globals@ == old(self).globals@,
            final(self).output@ == old(self).output@.push(text),
    {
        self.output.push(text);
        self.pending = Pending::Idle;
    }
}

/// One whole step of the machine: what `step` does, by case on the bytes
/// at the top frame's instruction offset.
pub open spec fn step_rel(pre: VM, post: VM, r: VmStep) -> bool {
    if pre.frames@.len() == 0 {
        post == pre && r is Done
    } else {
        let fr = pre.frames@.last();
        let code = fr.function.chunk.code@;
        let p = fr.ip as int;
        if p >= code.len() {
            faulted(
                pre,
                post,
                r,
                "Ran past the end of the chunk"@,
                if p == 0 {
                    0
                } else {
                    p - 1
                },
            )
        } else {
            match decode_at(code, p) {
                Some(i) => instr_rel(pre, post, r, i),
                None => {
                    if crate::chunk::opcode_from(code[p]) is None {
                        faulted(pre, post, r, "Unknown opcode"@, p)
                    } else {
                        faulted(pre, post, r, "Truncated instruction"@, p)
                    }
                },
            }
        }
    }
}

} // verus!
