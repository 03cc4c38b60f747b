//! The compiler: walks the syntax tree and emits a [`Chunk`] per function.
//!
//! One compiler instance exists per function body, including the top-level
//! script.  Alongside the chunk's bytes the compiler carries, in ghost
//! state, the instruction list those bytes decode to; its well-formedness
//! invariant ties the two together, so that of every chunk it emits the
//! following are proved: the bytes are a whole number of instructions, every
//! constant operand indexes within the constant pool, and every jump and
//! loop operand keeps the instruction pointer within the code.

use vstd::prelude::*;

use crate::ast::Assignment;
use crate::ast::Binary;
use crate::ast::Call;
use crate::ast::Declaration;
use crate::ast::DeclarationWithLineNo;
use crate::ast::Expr;
use crate::ast::FunDecl;
use crate::ast::IfStmt;
use crate::ast::LetDecl;
use crate::ast::Literal;
use crate::ast::Logical;
use crate::ast::Program;
use crate::ast::ReturnStmt;
use crate::ast::Statement;
use crate::ast::Unary;
use crate::ast::Variable;
use crate::ast::WhileStmt;
use crate::chunk::OpCode;
use crate::chunk::opcode_value;
use crate::instr::Instr;
use crate::lowering::binary_op_instr;
use crate::lowering::segment;
use crate::lowering::lowers_args;
use crate::lowering::lowers_decl;
use crate::lowering::lowers_decls;
use crate::lowering::lowers_expr;
use crate::lowering::lowers_fun;
use crate::lowering::lowers_let;
use crate::lowering::lowers_literal;
use crate::lowering::lowers_opt_stmt;
use crate::lowering::lowers_stmt;
use crate::lowering::tail_instrs;
use crate::instr::byte_instr;
use crate::instr::consts_ok;
use crate::instr::decode_list;
use crate::instr::encode_instr;
use crate::instr::instr_consts_ok;
use crate::instr::instr_op;
use crate::instr::instr_size;
use crate::instr::jump_instr;
use crate::instr::jump_ok;
use crate::instr::jumps_strict;
use crate::instr::jumps_within;
use crate::instr::lemma_consts_push;
use crate::instr::lemma_consts_update;
use crate::instr::lemma_decode_append;
use crate::instr::lemma_decode_patch;
use crate::instr::lemma_instr_size_bounds;
use crate::instr::lemma_jumps_push;
use crate::instr::lemma_jumps_strict_push;
use crate::instr::lemma_jumps_strict_push_more;
use crate::instr::lemma_jumps_update;
use crate::instr::lemma_offset_of_monotone;
use crate::instr::lemma_offset_of_prefix;
use crate::instr::lemma_offset_of_update;
use crate::instr::lemma_total_push;
use crate::instr::offset_of;
use crate::instr::opcode_arity;
use crate::instr::simple_instr;
use crate::instr::total_size;
use crate::text::dec_str;
use crate::text::usize_to_string;
use crate::token::Token;
use crate::token::TokenType;
use crate::value::Function;
use crate::value::Value;

verus! {

broadcast use vstd::std_specs::vec::group_vec_axioms;

/// Distinguishes a user function's compiler from the top-level script's.
pub enum FunctionType {
    Function(String),
    Script,
}

/// A local variable the compiler is tracking: the identifier's text and the
/// depth of the lexical block that declared it.  Slot 0 of every function is
/// reserved for the callee itself and carries an empty name no identifier
/// can match.
pub struct Local {
    pub name: String,
    pub depth: u8,
}

/// What the compiler needs from its embedder: the bit pattern of every
/// number literal in the program, keyed by the literal's source text, and
/// the next unused function id.
pub struct CompileEnv {
    pub numbers: Vec<(String, u64)>,
    pub next_id: u64,
}

/// The bit pattern recorded for a number literal's text: the first entry
/// with that text, if any.
pub open spec fn number_lookup(entries: Seq<(String, u64)>, s: Seq<char>) -> Option<u64>
    decreases entries.len(),
{
    if entries.len() == 0 {
        None
    } else if entries[0].0@ == s {
        Some(entries[0].1)
    } else {
        number_lookup(entries.drop_first(), s)
    }
}

impl CompileEnv {
    /// An environment with the given number table; function ids start at 1,
    /// id 0 being the script's.
    pub fn new(numbers: Vec<(String, u64)>) -> (e: CompileEnv)
        ensures
            e.numbers == numbers,
            e.next_id == 1,
    {
        CompileEnv { numbers, next_id: 1 }
    }

    /// The bit pattern recorded for a number literal's text.
    pub fn lookup_number(&self, s: &String) -> (r: Option<u64>)
        ensures
            r == number_lookup(self.numbers@, s@),
    {
        let ghost whole = self.numbers@;
        let mut i: usize = 0;
        proof {
            assert(whole.skip(0) =~= whole);
        }
        #[verifier::loop_isolation(false)]
        while i < self.numbers.len()
            invariant
                i <= self.numbers@.len(),
                self.numbers@ == whole,
                number_lookup(whole, s@) == number_lookup(whole.skip(i as int), s@),
            decreases self.numbers@.len() - i,
        {
            proof {
                assert(whole.skip(i as int)[0] == whole[i as int]);
                assert(whole.skip(i as int).drop_first() =~= whole.skip(i as int + 1));
            }
            if self.numbers[i].0 == *s {
                let r = self.numbers[i].1;
                return Some(r);
            }
            i = i + 1;
        }
        proof {
            assert(whole.skip(whole.len() as int).len() == 0);
        }
        None
    }
}

/// The compiler for one function body.
pub struct Compiler {
    pub current_line: u16,
    pub function: Function,
    pub function_type: FunctionType,
    pub locals: Vec<Local>,
    pub scope_depth: u8,
    /// The instruction list the chunk's bytes decode to.
    pub instrs: Ghost<Seq<Instr>>,
}

impl Compiler {
    /// The compiler's invariant: the chunk's bytes decode to exactly
    /// `instrs`, whose constant operands index within the pool and whose
    /// jumps land within the code emitted so far; the locals stack grows by
    /// block depth, holds at most 256 entries, and starts with the reserved
    /// slot for the callee.
    pub open spec fn wf(self) -> bool {
        &&& self.function.chunk.wf()
        &&& decode_list(self.function.chunk.code@, 0) == Some(self.instrs@)
        &&& total_size(self.instrs@) == self.function.chunk.code@.len()
        &&& consts_ok(self.instrs@, self.function.chunk.constants@.len() as int)
        &&& jumps_within(self.instrs@, self.function.chunk.code@.len() as int)
        &&& 1 <= self.locals@.len() <= 256
        &&& self.locals@[0].depth == 0
        &&& forall|i: int|
            0 <= i < self.locals@.len() ==> (#[trigger] self.locals@[i]).depth
                <= self.scope_depth
        &&& forall|i: int, j: int|
            0 <= i < j < self.locals@.len() ==> (#[trigger] self.locals@[i]).depth <= (
            #[trigger] self.locals@[j]).depth
    }

    /// What every compilation step leaves unchanged: whose function this
    /// is, the scope depth, and everything already emitted.
    pub open spec fn extends(pre: Compiler, post: Compiler) -> bool {
        &&& pre.instrs@.is_prefix_of(post.instrs@)
        &&& post.function.name == pre.function.name
        &&& post.function.arity == pre.function.arity
        &&& post.function.id == pre.function.id
        &&& post.scope_depth == pre.scope_depth
        &&& pre.function.chunk.constants@.is_prefix_of(post.function.chunk.constants@)
    }

    /// The instruction segment a compilation step appended.
    pub open spec fn emitted(pre: Compiler, post: Compiler) -> Seq<Instr> {
        post.instrs@.skip(pre.instrs@.len() as int)
    }

    /// The constants a compilation step appended to the pool.
    pub open spec fn emitted_consts(pre: Compiler, post: Compiler) -> Seq<Value> {
        post.function.chunk.constants@.skip(pre.function.chunk.constants@.len() as int)
    }

    /// A fresh compiler: empty chunk, the reserved local in slot 0, scope
    /// depth zero.
    pub fn new(function_type: FunctionType) -> (c: Compiler)
        ensures
            c.wf(),
            c.instrs@ =~= Seq::<Instr>::empty(),
            c.function.chunk.code@ =~= Seq::<u8>::empty(),
            c.function.chunk.constants@ =~= Seq::<Value>::empty(),
            c.function.arity == 0,
            c.function.id == 0,
            c.scope_depth == 0,
            c.locals@.len() == 1,
            c.locals@[0].name@ =~= Seq::<char>::empty(),
            c.current_line == 0,
            c.function_type == function_type,
            match function_type {
                FunctionType::Function(n) => c.function.name == n,
                FunctionType::Script => c.function.name@ == "<script>"@,
            },
    {
        let name = match &function_type {
            FunctionType::Function(n) => n.clone(),
            FunctionType::Script => String::from_str("<script>"),
        };
        let function = Function::new(name, 0);
        let mut locals: Vec<Local> = Vec::new();
        locals.push(Local { name: String::new(), depth: 0 });
        let c = Compiler {
            current_line: 0,
            function,
            function_type,
            locals,
            scope_depth: 0,
            instrs: Ghost(Seq::empty()),
        };
        proof {
            assert(decode_list(c.function.chunk.code@, 0) == Some(Seq::<Instr>::empty()));
        }
        c
    }

    /// A compilation error, carrying the message and the current line.
    fn report_error(&self, message: String) -> (r: String)
        ensures
            r@ == "Compilation error: "@ + message@ + "\nat line "@ + dec_str(
                self.current_line as int,
            ),
    {
        let mut s = String::from_str("Compilation error: ");
        s.append(message.as_str());
        s.append("\nat line ");
        let line = usize_to_string(self.current_line as usize);
        s.append(line.as_str());
        s
    }

    /// Emits one operand-less instruction.
    fn emit_simple(&mut self, op: OpCode)
        requires
            old(self).wf(),
            opcode_arity(op) == 1,
        ensures
            final(self).wf(),
            Compiler::extends(*old(self), *final(self)),
            final(self).instrs@ == old(self).instrs@.push(simple_instr(op)),
            final(self).locals@ == old(self).locals@,
            final(self).function.chunk.constants@ == old(self).function.chunk.constants@,
            final(self).current_line == old(self).current_line,
            final(self).function.chunk.code@.len() == old(self).function.chunk.code@.len() + 1,
    {
        let ghost l = self.instrs@;
        let ghost i = simple_instr(op);
        let b = op.as_byte();
        let line = self.current_line as usize;
        self.function.chunk.write(b, line);
        proof {
            assert(instr_op(i) == op);
            assert(encode_instr(i) =~= seq![opcode_value(op)]);
            assert(old(self).function.chunk.code@.push(b) =~= old(self).function.chunk.code@
                + encode_instr(i));
            lemma_decode_append(old(self).function.chunk.code@, 0, l, i);
            lemma_total_push(l, i);
            lemma_consts_push(
                l,
                i,
                self.function.chunk.constants@.len() as int,
                self.function.chunk.constants@.len() as int,
            );
            assert(l.push(i)[l.len() as int] == i);
            lemma_jumps_push(l, i);
        }
        self.instrs = Ghost(l.push(i));
        proof {
            assert(l.is_prefix_of(l.push(i))) by {
                assert(l.push(i).take(l.len() as int) =~= l);
            }
        }
    }

    /// Emits one instruction with a single operand byte.  An operand that
    /// indexes the constant pool must be in bounds.
    fn emit_with_operand(&mut self, op: OpCode, operand: u8)
        requires
            old(self).wf(),
            opcode_arity(op) == 2,
            instr_consts_ok(
                byte_instr(op, operand),
                old(self).function.chunk.constants@.len() as int,
            ),
        ensures
            final(self).wf(),
            Compiler::extends(*old(self), *final(self)),
            final(self).instrs@ == old(self).instrs@.push(byte_instr(op, operand)),
            final(self).locals@ == old(self).locals@,
            final(self).function.chunk.constants@ == old(self).function.chunk.constants@,
            final(self).current_line == old(self).current_line,
    {
        let ghost l = self.instrs@;
        let ghost i = byte_instr(op, operand);
        let b = op.as_byte();
        let line = self.current_line as usize;
        self.function.chunk.write(b, line);
        self.function.chunk.write(operand, line);
        proof {
            assert(instr_op(i) == op);
            assert(encode_instr(i) =~= seq![opcode_value(op), operand]);
            assert(old(self).function.chunk.code@.push(b).push(operand) =~= old(self).function.chunk.code@ + encode_instr(i));
            lemma_decode_append(old(self).function.chunk.code@, 0, l, i);
            lemma_total_push(l, i);
            lemma_consts_push(
                l,
                i,
                self.function.chunk.constants@.len() as int,
                self.function.chunk.constants@.len() as int,
            );
            assert(l.push(i)[l.len() as int] == i);
            lemma_jumps_push(l, i);
        }
        self.instrs = Ghost(l.push(i));
        proof {
            assert(l.is_prefix_of(l.push(i))) by {
                assert(l.push(i).take(l.len() as int) =~= l);
            }
        }
    }

    /// Emits a forward jump with a zero placeholder operand and returns the
    /// offset of the operand's first byte, to be patched later.
    fn emit_jump(&mut self, op: OpCode) -> (r: usize)
        requires
            old(self).wf(),
            op == OpCode::OpJump || op == OpCode::OpJumpIfTrue || op == OpCode::OpJumpIfFalse,
        ensures
            final(self).wf(),
            Compiler::extends(*old(self), *final(self)),
            final(self).instrs@ == old(self).instrs@.push(jump_instr(op, 0)),
            final(self).locals@ == old(self).locals@,
            final(self).function.chunk.constants@ == old(self).function.chunk.constants@,
            final(self).current_line == old(self).current_line,
            r == offset_of(final(self).instrs@, old(self).instrs@.len() as int) + 1,
            final(self).instrs@[old(self).instrs@.len() as int] == jump_instr(op, 0),
            old(self).instrs@.len() < final(self).instrs@.len(),
    {
        let ghost l = self.instrs@;
        let ghost i = jump_instr(op, 0);
        let b = op.as_byte();
        let line = self.current_line as usize;
        self.function.chunk.write(b, line);
        self.function.chunk.write(0, line);
        self.function.chunk.write(0, line);
        let r = self.function.chunk.count() - 2;
        proof {
            assert(instr_op(i) == op);
            assert(encode_instr(i) =~= seq![opcode_value(op), 0u8, 0u8]);
            assert(old(self).function.chunk.code@.push(b).push(0).push(0) =~= old(self).function.chunk.code@ + encode_instr(i));
            lemma_decode_append(old(self).function.chunk.code@, 0, l, i);
            lemma_total_push(l, i);
            lemma_consts_push(
                l,
                i,
                self.function.chunk.constants@.len() as int,
                self.function.chunk.constants@.len() as int,
            );
            assert(l.push(i)[l.len() as int] == i);
            lemma_jumps_push(l, i);
            crate::instr::lemma_offset_of_push(l, i, l.len() as int);
        }
        self.instrs = Ghost(l.push(i));
        proof {
            assert(l.is_prefix_of(l.push(i))) by {
                assert(l.push(i).take(l.len() as int) =~= l);
            }
        }
        r
    }

    /// Patches the forward jump whose operand starts at `offset` (ghostly,
    /// instruction `k`) to land here, at the end of the code emitted so
    /// far.  The distance must fit in 16 bits; otherwise a compile error.
    fn patch_jump(&mut self, offset: usize, Ghost(k): Ghost<int>) -> (r: Result<(), String>)
        requires
            old(self).wf(),
            0 <= k < old(self).instrs@.len(),
            opcode_arity(instr_op(old(self).instrs@[k])) == 3,
            !(old(self).instrs@[k] is Loop),
            offset == offset_of(old(self).instrs@, k) + 1,
        ensures
            final(self).wf(),
            final(self).locals@ == old(self).locals@,
            final(self).function.name == old(self).function.name,
            final(self).function.arity == old(self).function.arity,
            final(self).function.id == old(self).function.id,
            final(self).scope_depth == old(self).scope_depth,
            final(self).current_line == old(self).current_line,
            final(self).function.chunk.constants@ == old(self).function.chunk.constants@,
            final(self).function.chunk.code@.len() == old(self).function.chunk.code@.len(),
            final(self).instrs@.len() == old(self).instrs@.len(),
            match r {
                Ok(()) => old(self).function.chunk.code@.len() - offset - 2 <= 65535
                    && final(self).instrs@ == old(self).instrs@.update(
                    k,
                    jump_instr(
                        instr_op(old(self).instrs@[k]),
                        (old(self).function.chunk.code@.len() - offset - 2) as u16,
                    ),
                ),
                Err(_) => final(self).instrs@ == old(self).instrs@,
            },
            forall|m: int|
                0 <= m < old(self).instrs@.len() && m != k ==> final(self).instrs@[m] == old(self).instrs@[m],
    {
        let ghost l = self.instrs@;
        proof {
            lemma_offset_of_monotone(l, k, l.len() as int);
            lemma_instr_size_bounds(l[k]);
        }
        let count = self.function.chunk.count();
        let jump = count - offset - 2;
        if jump > 65535 {
            return Err(self.report_error(String::from_str("Too much code to jump over")));
        }
        let hi = (jump / 256) as u8;
        let lo = (jump % 256) as u8;
        let ghost j = jump_instr(instr_op(l[k]), jump as u16);
        proof {
            assert(instr_op(j) == instr_op(l[k]));
            assert(encode_instr(j)[1] == hi);
            assert(encode_instr(j)[2] == lo);
        }
        self.function.chunk.replace_at(hi, offset);
        self.function.chunk.replace_at(lo, offset + 1);
        proof {
            let code = old(self).function.chunk.code@;
            assert(code.update(offset as int, hi).update(offset + 1, lo) == self
                .function
                .chunk
                .code@);
            lemma_decode_patch(code, 0, l, k, j);
            assert(l.update(k, j)[k] == j);
            lemma_offset_of_update(l, k, j, k);
            lemma_jumps_update(l, k, j);
            lemma_consts_update(l, k, j, self.function.chunk.constants@.len() as int);
        }
        self.instrs = Ghost(l.update(k, j));
        Ok(())
    }

    /// Emits a `LOOP` jumping back to `start_loop`.  The distance must fit
    /// in 16 bits; otherwise a compile error.
    fn emit_loop(&mut self, start_loop: usize) -> (r: Result<(), String>)
        requires
            old(self).wf(),
            start_loop <= old(self).function.chunk.code@.len(),
        ensures
            final(self).wf(),
            Compiler::extends(*old(self), *final(self)),
            final(self).locals@ == old(self).locals@,
            final(self).function.chunk.constants@ == old(self).function.chunk.constants@,
            final(self).current_line == old(self).current_line,
            match r {
                Ok(()) => old(self).function.chunk.code@.len() + 3 - start_loop <= 65535
                    && final(self).instrs@ == old(self).instrs@.push(
                    Instr::Loop((old(self).function.chunk.code@.len() + 3 - start_loop) as u16),
                ),
                Err(_) => final(self).instrs@ == old(self).instrs@,
            },
    {
        let ghost l = self.instrs@;
        let count = self.function.chunk.count();
        if count - start_loop > 65532 {
            proof {
                assert(l.is_prefix_of(l)) by {
                    assert(l.take(l.len() as int) =~= l);
                }
            }
            return Err(self.report_error(String::from_str("Loop body too large")));
        }
        let d = count - start_loop + 3;
        let ghost i = Instr::Loop(d as u16);
        let op = OpCode::OpLoop;
        let b = op.as_byte();
        let hi = (d / 256) as u8;
        let lo = (d % 256) as u8;
        let line = self.current_line as usize;
        self.function.chunk.write(b, line);
        self.function.chunk.write(hi, line);
        self.function.chunk.write(lo, line);
        proof {
            assert(instr_op(i) == op);
            assert(encode_instr(i) =~= seq![opcode_value(op), hi, lo]);
            assert(old(self).function.chunk.code@.push(b).push(hi).push(lo) =~= old(self).function.chunk.code@ + encode_instr(i));
            lemma_decode_append(old(self).function.chunk.code@, 0, l, i);
            lemma_total_push(l, i);
            lemma_consts_push(
                l,
                i,
                self.function.chunk.constants@.len() as int,
                self.function.chunk.constants@.len() as int,
            );
            assert(l.push(i)[l.len() as int] == i);
            crate::instr::lemma_offset_of_push(l, i, l.len() as int);
            assert(jump_ok(l.push(i), l.len() as int, total_size(l) + instr_size(i)));
            lemma_jumps_push(l, i);
        }
        self.instrs = Ghost(l.push(i));
        proof {
            assert(l.is_prefix_of(l.push(i))) by {
                assert(l.push(i).take(l.len() as int) =~= l);
            }
        }
        Ok(())
    }

    /// Adds a value to the constant pool, or reports a compile error when
    /// the pool already holds 256 constants.
    fn make_constant(&mut self, value: Value) -> (r: Result<u8, String>)
        requires
            old(self).wf(),
        ensures
            final(self).wf(),
            Compiler::extends(*old(self), *final(self)),
            final(self).instrs@ == old(self).instrs@,
            final(self).locals@ == old(self).locals@,
            final(self).function.chunk.code@ == old(self).function.chunk.code@,
            final(self).current_line == old(self).current_line,
            match r {
                Ok(i) => i as int == old(self).function.chunk.constants@.len() && final(self).function.chunk.constants@ == old(self).function.chunk.constants@.push(value),
                Err(_) => final(self).function.chunk.constants@ == old(self).function.chunk.constants@,
            },
    {
        let ghost l = self.instrs@;
        proof {
            assert(l.is_prefix_of(l)) by {
                assert(l.take(l.len() as int) =~= l);
            }
        }
        match self.function.chunk.add_constant(value) {
            Some(i) => {
                proof {
                    assert forall|m: int| 0 <= m < l.len() implies instr_consts_ok(
                        #[trigger] l[m],
                        self.function.chunk.constants@.len() as int,
                    ) by {
                        assert(instr_consts_ok(
                            l[m],
                            old(self).function.chunk.constants@.len() as int,
                        ));
                    }
                }
                Ok(i)
            },
            None => Err(
                self.report_error(String::from_str("Too many constants in one chunk")),
            ),
        }
    }

    /// The slot of the innermost local with this name, if any.
    pub fn resolve_local(&self, name: &Token) -> (r: Option<usize>)
        ensures
            r == resolve_spec(self.locals@, name.lexeme@),
            match r {
                Some(i) => i < self.locals@.len(),
                None => true,
            },
    {
        let ghost whole = self.locals@;
        let mut i: usize = self.locals.len();
        proof {
            assert(whole.take(whole.len() as int) =~= whole);
        }
        while i > 0
            invariant
                i <= self.locals@.len(),
                self.locals@ == whole,
                resolve_spec(whole, name.lexeme@) == resolve_spec(
                    whole.take(i as int),
                    name.lexeme@,
                ),
            decreases i,
        {
            proof {
                assert(whole.take(i as int).last() == whole[i as int - 1]);
                assert(whole.take(i as int).drop_last() =~= whole.take(i as int - 1));
            }
            if self.locals[i - 1].name == name.lexeme {
                return Some(i - 1);
            }
            i = i - 1;
        }
        None
    }

    /// Registers a new local at the current depth.  Declaring a name that
    /// already names a local of the same depth, or a 257th local, is a
    /// compile error.
    fn add_local(&mut self, name: &Token) -> (r: Result<(), String>)
        requires
            old(self).wf(),
        ensures
            final(self).wf(),
            Compiler::extends(*old(self), *final(self)),
            final(self).instrs@ == old(self).instrs@,
            final(self).function.chunk == old(self).function.chunk,
            final(self).function_type == old(self).function_type,
            final(self).function.name == old(self).function.name,
            final(self).function.arity == old(self).function.arity,
            final(self).current_line == old(self).current_line,
            match r {
                Ok(()) => final(self).locals@ == old(self).locals@.push(
                    (Local { name: name.lexeme, depth: old(self).scope_depth }),
                ) && old(self).locals@.is_prefix_of(final(self).locals@),
                Err(_) => final(self).locals@ == old(self).locals@,
            },
    {
        let ghost l = self.instrs@;
        proof {
            assert(l.is_prefix_of(l)) by {
                assert(l.take(l.len() as int) =~= l);
            }
        }
        let mut i: usize = self.locals.len();
        #[verifier::loop_isolation(false)]
        while i > 0 && self.locals[i - 1].depth >= self.scope_depth
            invariant
                i <= self.locals@.len(),
                *self == *old(self),
            decreases i,
        {
            if self.locals[i - 1].name == name.lexeme {
                let mut msg = String::from_str("Already a variable with the name ");
                msg.append(name.lexeme.as_str());
                msg.append(" in this scope");
                return Err(self.report_error(msg));
            }
            i = i - 1;
        }
        if self.locals.len() >= 256 {
            return Err(
                self.report_error(String::from_str("Too many local variables in function")),
            );
        }
        let entry = Local { name: name.lexeme.clone(), depth: self.scope_depth };
        self.locals.push(entry);
        proof {
            assert(old(self).locals@.is_prefix_of(self.locals@)) by {
                assert(self.locals@.take(old(self).locals@.len() as int) =~= old(self).locals@);
            }
            assert(forall|m: int|
                0 <= m < old(self).locals@.len() ==> self.locals@[m] == old(self).locals@[m]);
        }
        Ok(())
    }
}

/// The slot of the innermost local whose name matches, searching from the
/// top of the locals stack.
pub open spec fn resolve_spec(locals: Seq<Local>, name: Seq<char>) -> Option<usize>
    decreases locals.len(),
{
    if locals.len() == 0 {
        None
    } else if locals.last().name@ == name {
        Some((locals.len() - 1) as usize)
    } else {
        resolve_spec(locals.drop_last(), name)
    }
}

/// Round trip: a compiled chunk's bytes decode to exactly the instruction
/// list the compiler built, so disassembly (see [`crate::chunk::Chunk::disassemble`])
/// recovers the intended mnemonics and operand values.
pub proof fn lemma_compiled_chunk_decodes(c: Compiler)
    requires
        c.wf(),
    ensures
        decode_list(c.function.chunk.code@, 0) == Some(c.instrs@),
{
}

/// Constant bounds: every operand the compiler placed that indexes the
/// constant pool — `CONSTANT`, the global definitions and accesses — lies
/// within the pool.
pub proof fn lemma_compiled_constants_in_pool(c: Compiler, k: int)
    requires
        c.wf(),
        0 <= k < c.instrs@.len(),
    ensures
        instr_consts_ok(c.instrs@[k], c.function.chunk.constants@.len() as int),
{
}

/// Jump bounds: in a finished chunk (where every jump lands strictly
/// within the code, as [`Compiler::run`] ensures), dispatching any jump or
/// loop moves the instruction pointer to an offset within
/// `[0, chunk.code.len())`.
pub proof fn lemma_compiled_jumps_stay_in_code(c: Compiler, k: int)
    requires
        c.wf(),
        jumps_strict(c.instrs@, c.function.chunk.code@.len() as int),
        0 <= k < c.instrs@.len(),
    ensures
        match c.instrs@[k] {
            Instr::Jump(d) => 0 <= offset_of(c.instrs@, k) + 3 + d
                < c.function.chunk.code@.len(),
            Instr::JumpIfTrue(d) => 0 <= offset_of(c.instrs@, k) + 3 + d
                < c.function.chunk.code@.len(),
            Instr::JumpIfFalse(d) => 0 <= offset_of(c.instrs@, k) + 3 + d
                < c.function.chunk.code@.len(),
            Instr::Loop(d) => 0 <= offset_of(c.instrs@, k) + 3 - d
                < c.function.chunk.code@.len(),
            _ => true,
        },
{
    assert(crate::instr::jump_strict_ok(c.instrs@, k, c.function.chunk.code@.len() as int));
    lemma_offset_of_monotone(c.instrs@, 0, k);
}

/// New locals all sit at the declaring scope's depth; the old ones stay.
pub open spec fn locals_grown(pre: Compiler, post: Compiler) -> bool {
    &&& pre.locals@.is_prefix_of(post.locals@)
    &&& forall|i: int|
        pre.locals@.len() <= i < post.locals@.len() ==> (#[trigger] post.locals@[i]).depth
            == pre.scope_depth
}

/// A prefix's elements are the whole's.
proof fn lemma_prefix_index<A>(a: Seq<A>, b: Seq<A>)
    requires
        a.is_prefix_of(b),
    ensures
        forall|i: int| 0 <= i < a.len() ==> a[i] == b[i],
{
    assert forall|i: int| 0 <= i < a.len() implies a[i] == b[i] by {
        assert(b.take(a.len() as int)[i] == b[i]);
    }
}

/// Being a prefix is transitive.
proof fn lemma_prefix_trans<A>(a: Seq<A>, b: Seq<A>, c: Seq<A>)
    requires
        a.is_prefix_of(b),
        b.is_prefix_of(c),
    ensures
        a.is_prefix_of(c),
{
    lemma_prefix_index(a, b);
    lemma_prefix_index(b, c);
    assert(a =~= c.take(a.len() as int)) by {
        assert(forall|i: int| 0 <= i < a.len() ==> c.take(a.len() as int)[i] == c[i]);
    }
}

/// Every compilation step extends the state it started from; doing
/// nothing extends it too.
proof fn lemma_extends_refl(a: Compiler)
    ensures
        Compiler::extends(a, a),
{
    assert(a.instrs@.take(a.instrs@.len() as int) =~= a.instrs@);
    assert(a.function.chunk.constants@.take(a.function.chunk.constants@.len() as int)
        =~= a.function.chunk.constants@);
}

/// One compilation step after another is again one: what each leaves
/// unchanged, their composition leaves unchanged.
proof fn lemma_extends_trans(a: Compiler, b: Compiler, c: Compiler)
    requires
        Compiler::extends(a, b),
        Compiler::extends(b, c),
    ensures
        Compiler::extends(a, c),
{
    lemma_prefix_trans(a.instrs@, b.instrs@, c.instrs@);
    lemma_prefix_trans(
        a.function.chunk.constants@,
        b.function.chunk.constants@,
        c.function.chunk.constants@,
    );
}

/// Two chained compilation steps split the whole appended segment into
/// the two steps' own segments, for the instructions and the constants
/// alike.
proof fn lemma_emitted_split(a: Compiler, b: Compiler, c: Compiler)
    requires
        Compiler::extends(a, b),
        Compiler::extends(b, c),
    ensures
        Compiler::emitted(a, c) == Compiler::emitted(a, b) + Compiler::emitted(b, c),
        Compiler::emitted_consts(a, c) == Compiler::emitted_consts(a, b)
            + Compiler::emitted_consts(b, c),
{
    lemma_seg_split(a.instrs@, b.instrs@, c.instrs@);
    lemma_seg_split(
        a.function.chunk.constants@,
        b.function.chunk.constants@,
        c.function.chunk.constants@,
    );
}

/// A sequence grown twice splits, past a first prefix, into the two
/// additions.
proof fn lemma_seg_split<A>(a: Seq<A>, b: Seq<A>, c: Seq<A>)
    requires
        a.is_prefix_of(b),
        b.is_prefix_of(c),
    ensures
        c.skip(a.len() as int) == b.skip(a.len() as int) + c.skip(b.len() as int),
{
    lemma_prefix_index(a, b);
    lemma_prefix_index(b, c);
    assert(c.skip(a.len() as int) =~= b.skip(a.len() as int) + c.skip(b.len() as int));
}

/// Appending one element is a one-element segment.
proof fn lemma_skip_push<A>(x: Seq<A>, i: A)
    ensures
        x.push(i).skip(x.len() as int) == seq![i],
{
    assert(x.push(i).skip(x.len() as int) =~= seq![i]);
}

/// An unchanged sequence is an empty segment.
proof fn lemma_skip_all<A>(x: Seq<A>)
    ensures
        x.skip(x.len() as int) == Seq::<A>::empty(),
{
    assert(x.skip(x.len() as int) =~= Seq::<A>::empty());
}

/// A sequence is its prefix plus the rest.
proof fn lemma_prefix_whole<A>(a: Seq<A>, b: Seq<A>)
    requires
        a.is_prefix_of(b),
    ensures
        b == a + b.skip(a.len() as int),
{
    lemma_prefix_index(a, b);
    assert(b =~= a + b.skip(a.len() as int));
}

/// A single instruction's segment is its own size.
proof fn lemma_total_single(i: Instr)
    ensures
        total_size(seq![i]) == instr_size(i),
{
    assert(offset_of(seq![i], 0) == 0);
    assert(seq![i].len() == 1);
    assert(offset_of(seq![i], 1) == offset_of(seq![i], 0) + instr_size(seq![i][0]));
}

/// The byte size of concatenated segments adds up.
proof fn lemma_total_concat(a: Seq<Instr>, b: Seq<Instr>)
    ensures
        total_size(a + b) == total_size(a) + total_size(b),
{
    assert(a.is_prefix_of(a + b)) by {
        assert((a + b).take(a.len() as int) =~= a);
    }
    lemma_offset_of_prefix(a, a + b, a.len() as int);
    lemma_offset_concat_inner(a, b, b.len() as int);
}

/// Offsets within the second part of a concatenation shift by the first
/// part's size.
proof fn lemma_offset_concat_inner(a: Seq<Instr>, b: Seq<Instr>, k: int)
    requires
        0 <= k <= b.len(),
    ensures
        offset_of(a + b, a.len() + k) == offset_of(a + b, a.len() as int) + offset_of(b, k),
    decreases k,
{
    if k > 0 {
        lemma_offset_concat_inner(a, b, k - 1);
        assert((a + b)[a.len() + k - 1] == b[k - 1]);
    }
}

/// Growing the locals twice at one depth grows them once.
proof fn lemma_locals_grown_trans(a: Compiler, b: Compiler, c: Compiler)
    requires
        locals_grown(a, b),
        locals_grown(b, c),
        b.scope_depth == a.scope_depth,
    ensures
        locals_grown(a, c),
{
    lemma_prefix_trans(a.locals@, b.locals@, c.locals@);
    lemma_prefix_index(b.locals@, c.locals@);
}

/// A list's total size only grows along a prefix.
proof fn lemma_total_of_prefix(a: Seq<Instr>, b: Seq<Instr>)
    requires
        a.is_prefix_of(b),
    ensures
        total_size(a) <= total_size(b),
{
    lemma_offset_of_prefix(a, b, a.len() as int);
    lemma_offset_of_monotone(b, a.len() as int, b.len() as int);
}

/// Patching an instruction past a prefix leaves it a prefix.
proof fn lemma_prefix_patch(a: Seq<Instr>, b: Seq<Instr>, c: Seq<Instr>, k: int)
    requires
        a.is_prefix_of(b),
        c.len() == b.len(),
        forall|m: int| 0 <= m < b.len() && m != k ==> c[m] == b[m],
        a.len() <= k,
    ensures
        a.is_prefix_of(c),
{
    lemma_prefix_index(a, b);
    assert(a =~= c.take(a.len() as int)) by {
        assert(forall|i: int| 0 <= i < a.len() ==> c.take(a.len() as int)[i] == c[i]);
    }
}

impl Compiler {
    /// Compiles a list of declarations and finishes the chunk: the script
    /// ends with `EOF`, a user function with an implicit `return false`.
    /// On success, every jump and loop in the finished chunk lands strictly
    /// within its code, and every constant operand indexes the pool.
    fn compile_body(
        &mut self,
        declarations: &Vec<DeclarationWithLineNo>,
        env: &mut CompileEnv,
    ) -> (r: Result<(), String>)
        requires
            old(self).wf(),
        ensures
            final(self).wf(),
            final(env).numbers == old(env).numbers,
            declarations@.len() == 0 ==> r is Ok,
            r is Ok ==> exists|dc: Seq<Instr>, locals_out: Seq<Local>|
                #![trigger segment(dc), segment(locals_out)]
                {
                    &&& lowers_decls(
                        *declarations,
                        declarations@.len() as int,
                        old(env).numbers@,
                        old(self).locals@,
                        old(self).scope_depth,
                        old(self).function.chunk.constants@.len() as int,
                        dc,
                        Compiler::emitted_consts(*old(self), *final(self)),
                        locals_out,
                    )
                    &&& Compiler::emitted(*old(self), *final(self)) == dc + tail_instrs(
                        old(self).function_type,
                    )
                    &&& segment(dc)
                    &&& segment(locals_out)
                },
            r is Ok ==> Compiler::extends(*old(self), *final(self)) && jumps_strict(
                final(self).instrs@,
                final(self).function.chunk.code@.len() as int,
            ) && final(self).function.chunk.code@.len() > 0,
        decreases *declarations,
    {
        let is_script = match &self.function_type {
            FunctionType::Script => true,
            FunctionType::Function(_) => false,
        };
        let mut idx: usize = 0;
        proof {
            assert(self.instrs@.is_prefix_of(self.instrs@)) by {
                assert(self.instrs@.take(self.instrs@.len() as int) =~= self.instrs@);
            }
            lemma_extends_refl(*old(self));
            lemma_skip_all(old(self).instrs@);
            lemma_skip_all(old(self).function.chunk.constants@);
        }
        #[verifier::loop_isolation(false)]
        while idx < declarations.len()
            invariant
                self.wf(),
                Compiler::extends(*old(self), *self),
                env.numbers == old(env).numbers,
                idx <= declarations@.len(),
                lowers_decls(
                    *declarations,
                    idx as int,
                    old(env).numbers@,
                    old(self).locals@,
                    old(self).scope_depth,
                    old(self).function.chunk.constants@.len() as int,
                    Compiler::emitted(*old(self), *self),
                    Compiler::emitted_consts(*old(self), *self),
                    self.locals@,
                ),
            decreases declarations.len() - idx,
        {
            let ghost pre = *self;
            let r = self.declaration(&declarations[idx], env);
            match r {
                Ok(()) => {},
                Err(e) => {
                    return Err(e);
                },
            }
            proof {
                lemma_extends_trans(*old(self), pre, *self);
                lemma_emitted_split(*old(self), pre, *self);
                assert(pre.function.chunk.constants@.len() as int
                    == old(self).function.chunk.constants@.len() + Compiler::emitted_consts(
                    *old(self),
                    pre,
                ).len());
                assert(lowers_decl(
                    declarations@[idx as int].decl,
                    old(env).numbers@,
                    pre.locals@,
                    old(self).scope_depth,
                    old(self).function.chunk.constants@.len() as int + Compiler::emitted_consts(
                        *old(self),
                        pre,
                    ).len(),
                    Compiler::emitted(pre, *self),
                    Compiler::emitted_consts(pre, *self),
                    self.locals@,
                ));
                assert(segment(Compiler::emitted(*old(self), pre)));
                assert(segment(Compiler::emitted_consts(*old(self), pre)));
                assert(segment(pre.locals@));
                assert(segment(Compiler::emitted(pre, *self)));
                assert(segment(Compiler::emitted_consts(pre, *self)));
            }
            idx = idx + 1;
        }
        let ghost before_tail = *self;
        if is_script {
            let ghost l = self.instrs@;
            self.emit_simple(OpCode::OpEof);
            proof {
                lemma_jumps_strict_push(l, simple_instr(OpCode::OpEof));
                lemma_extends_trans(*old(self), before_tail, *self);
                lemma_skip_push(before_tail.instrs@, simple_instr(OpCode::OpEof));
                lemma_skip_all(before_tail.function.chunk.constants@);
                lemma_emitted_split(*old(self), before_tail, *self);
                assert(Compiler::emitted_consts(*old(self), *self) =~= Compiler::emitted_consts(
                    *old(self),
                    before_tail,
                ));
                assert(segment(Compiler::emitted(*old(self), before_tail)));
                assert(segment(before_tail.locals@));
            }
        } else {
            let ghost l = self.instrs@;
            self.emit_simple(OpCode::OpFalse);
            proof {
                lemma_jumps_strict_push(l, simple_instr(OpCode::OpFalse));
            }
            let ghost l2 = self.instrs@;
            let ghost half = *self;
            self.emit_simple(OpCode::OpReturn);
            proof {
                lemma_jumps_strict_push_more(l2, simple_instr(OpCode::OpReturn));
                lemma_extends_trans(*old(self), before_tail, *self);
                lemma_skip_push(before_tail.instrs@, simple_instr(OpCode::OpFalse));
                lemma_skip_push(half.instrs@, simple_instr(OpCode::OpReturn));
                lemma_skip_all(before_tail.function.chunk.constants@);
                lemma_skip_all(half.function.chunk.constants@);
                lemma_extends_trans(*old(self), before_tail, half);
                lemma_emitted_split(*old(self), before_tail, half);
                lemma_emitted_split(*old(self), half, *self);
                assert(Compiler::emitted(*old(self), *self) =~= Compiler::emitted(
                    *old(self),
                    before_tail,
                ) + seq![Instr::False, Instr::Return]);
                assert(Compiler::emitted_consts(*old(self), *self) =~= Compiler::emitted_consts(
                    *old(self),
                    before_tail,
                ));
                assert(segment(Compiler::emitted(*old(self), before_tail)));
                assert(segment(before_tail.locals@));
            }
        }
        Ok(())
    }

    /// Compiles one declaration, `current_line` set to its line.
    fn declaration(&mut self, decl: &DeclarationWithLineNo, env: &mut CompileEnv) -> (r: Result<
        (),
        String,
    >)
        requires
            old(self).wf(),
        ensures
            final(self).wf(),
            final(env).numbers == old(env).numbers,
            r is Ok ==> lowers_decl(
                decl.decl,
                old(env).numbers@,
                old(self).locals@,
                old(self).scope_depth,
                old(self).function.chunk.constants@.len() as int,
                Compiler::emitted(*old(self), *final(self)),
                Compiler::emitted_consts(*old(self), *final(self)),
                final(self).locals@,
            ),
            r is Ok ==> Compiler::extends(*old(self), *final(self)) && locals_grown(
                *old(self),
                *final(self),
            ),
        decreases *decl,
    {
        self.current_line = decl.lineno;
        let ghost pre = *self;
        match &decl.decl {
            Declaration::FunDecl(d) => self.fun_decl(d, env),
            Declaration::LetDecl(d) => self.let_decl(d, env),
            Declaration::Statement(s) => {
                let r = self.statement(s, env);
                proof {
                    if r is Ok {
                        assert(pre.locals@.is_prefix_of(self.locals@)) by {
                            assert(self.locals@.take(pre.locals@.len() as int) =~= pre.locals@);
                        }
                    }
                }
                r
            },
        }
    }

    /// Compiles one statement.  Statements leave the locals stack as they
    /// found it.
    fn statement(&mut self, statement: &Statement, env: &mut CompileEnv) -> (r: Result<
        (),
        String,
    >)
        requires
            old(self).wf(),
        ensures
            final(self).wf(),
            final(env).numbers == old(env).numbers,
            r is Ok ==> lowers_stmt(
                *statement,
                old(env).numbers@,
                old(self).locals@,
                old(self).scope_depth,
                old(self).function.chunk.constants@.len() as int,
                Compiler::emitted(*old(self), *final(self)),
                Compiler::emitted_consts(*old(self), *final(self)),
            ),
            r is Ok ==> Compiler::extends(*old(self), *final(self)) && final(self).locals@ == old(self).locals@,
        decreases *statement,
    {
        match statement {
            Statement::ExprStmt(expr) => {
                let r = self.expression(expr, env);
                match r {
                    Ok(()) => {},
                    Err(e) => {
                        return Err(e);
                    },
                }
                let ghost mid = *self;
                self.emit_simple(OpCode::OpPop);
                proof {
                    lemma_extends_trans(*old(self), mid, *self);
                    lemma_skip_push(mid.instrs@, simple_instr(OpCode::OpPop));
                    lemma_skip_all(mid.function.chunk.constants@);
                    lemma_emitted_split(*old(self), mid, *self);
                    assert(Compiler::emitted_consts(*old(self), *self) =~= Compiler::emitted_consts(
                        *old(self),
                        mid,
                    ));
                    assert(segment(Compiler::emitted(*old(self), mid)));
                    assert(lowers_expr(
                        *expr,
                        old(env).numbers@,
                        old(self).locals@,
                        old(self).function.chunk.constants@.len() as int,
                        Compiler::emitted(*old(self), mid),
                        Compiler::emitted_consts(*old(self), *self),
                    ));
                }
                Ok(())
            },
            Statement::IfStmt(s) => self.if_statement(s, env),
            Statement::PrintStmt(expr) => {
                let r = self.expression(expr, env);
                match r {
                    Ok(()) => {},
                    Err(e) => {
                        return Err(e);
                    },
                }
                let ghost mid = *self;
                self.emit_simple(OpCode::OpPrint);
                proof {
                    lemma_extends_trans(*old(self), mid, *self);
                    lemma_skip_push(mid.instrs@, simple_instr(OpCode::OpPrint));
                    lemma_skip_all(mid.function.chunk.constants@);
                    lemma_emitted_split(*old(self), mid, *self);
                    assert(Compiler::emitted_consts(*old(self), *self) =~= Compiler::emitted_consts(
                        *old(self),
                        mid,
                    ));
                    assert(segment(Compiler::emitted(*old(self), mid)));
                    assert(lowers_expr(
                        *expr,
                        old(env).numbers@,
                        old(self).locals@,
                        old(self).function.chunk.constants@.len() as int,
                        Compiler::emitted(*old(self), mid),
                        Compiler::emitted_consts(*old(self), *self),
                    ));
                }
                Ok(())
            },
            Statement::ReturnStmt(rs) => self.return_statement(rs, env),
            Statement::WhileStmt(ws) => self.while_statement(ws, env),
            Statement::Block(decls) => self.block(decls, env),
        }
    }

    /// Compiles `return`: the value if present, an implicit `false`
    /// otherwise, then `RETURN`.
    fn return_statement(&mut self, rs: &ReturnStmt, env: &mut CompileEnv) -> (r: Result<
        (),
        String,
    >)
        requires
            old(self).wf(),
        ensures
            final(self).wf(),
            final(env).numbers == old(env).numbers,
            r is Ok ==> lowers_stmt(
                Statement::ReturnStmt(*rs),
                old(env).numbers@,
                old(self).locals@,
                old(self).scope_depth,
                old(self).function.chunk.constants@.len() as int,
                Compiler::emitted(*old(self), *final(self)),
                Compiler::emitted_consts(*old(self), *final(self)),
            ),
            r is Ok ==> Compiler::extends(*old(self), *final(self)) && final(self).locals@ == old(self).locals@,
        decreases *rs,
    {
        match &rs.expr {
            Some(e) => {
                let r = self.expression(e, env);
                match r {
                    Ok(()) => {},
                    Err(msg) => {
                        return Err(msg);
                    },
                }
            },
            None => {
                self.emit_simple(OpCode::OpFalse);
            },
        }
        let ghost mid = *self;
        self.emit_simple(OpCode::OpReturn);
        proof {
            lemma_extends_trans(*old(self), mid, *self);
            lemma_skip_push(mid.instrs@, simple_instr(OpCode::OpReturn));
            lemma_skip_all(mid.function.chunk.constants@);
            lemma_emitted_split(*old(self), mid, *self);
            assert(Compiler::emitted_consts(*old(self), *self) =~= Compiler::emitted_consts(
                *old(self),
                mid,
            ));
            if rs.expr is Some {
                assert(segment(Compiler::emitted(*old(self), mid)));
                assert(lowers_expr(
                    rs.expr->0,
                    old(env).numbers@,
                    old(self).locals@,
                    old(self).function.chunk.constants@.len() as int,
                    Compiler::emitted(*old(self), mid),
                    Compiler::emitted_consts(*old(self), *self),
                ));
            } else {
                lemma_skip_push(old(self).instrs@, simple_instr(OpCode::OpFalse));
                assert(Compiler::emitted(*old(self), *self) =~= seq![
                    Instr::False,
                    Instr::Return,
                ]);
                assert(Compiler::emitted_consts(*old(self), *self) =~= Seq::<Value>::empty());
            }
        }
        Ok(())
    }

    /// Compiles `if`: the condition, a `JUMP_IF_FALSE` over the then
    /// branch, a `JUMP` over the else branch, the condition popped exactly
    /// once on each path.
    #[verifier::rlimit(100)]
    #[verifier::spinoff_prover]
    fn if_statement(&mut self, if_stmt: &IfStmt, env: &mut CompileEnv) -> (r: Result<(), String>)
        requires
            old(self).wf(),
        ensures
            final(self).wf(),
            final(env).numbers == old(env).numbers,
            r is Ok ==> lowers_stmt(
                Statement::IfStmt(*if_stmt),
                old(env).numbers@,
                old(self).locals@,
                old(self).scope_depth,
                old(self).function.chunk.constants@.len() as int,
                Compiler::emitted(*old(self), *final(self)),
                Compiler::emitted_consts(*old(self), *final(self)),
            ),
            r is Ok ==> Compiler::extends(*old(self), *final(self)) && final(self).locals@ == old(self).locals@,
        decreases *if_stmt,
    {
        let r = self.expression(&if_stmt.condition, env);
        match r {
            Ok(()) => {},
            Err(e) => {
                return Err(e);
            },
        }
        let ghost c1 = *self;
        let ghost k1 = self.instrs@.len() as int;
        let then_jump = self.emit_jump(OpCode::OpJumpIfFalse);
        let ghost c2 = *self;
        self.emit_simple(OpCode::OpPop);
        let ghost c3 = *self;
        let r = self.statement(&*if_stmt.then_branch, env);
        match r {
            Ok(()) => {},
            Err(e) => {
                return Err(e);
            },
        }
        let ghost c4 = *self;
        let ghost k2 = self.instrs@.len() as int;
        let else_jump = self.emit_jump(OpCode::OpJump);
        let ghost c5 = *self;
        proof {
            lemma_extends_trans(c2, c3, c4);
            lemma_extends_trans(c2, c4, c5);
            lemma_prefix_index(c2.instrs@, c5.instrs@);
            lemma_offset_of_prefix(c2.instrs@, c5.instrs@, k1 + 1);
            lemma_offset_of_monotone(c2.instrs@, k1, k1 + 1);
        }
        let r = self.patch_jump(then_jump, Ghost(k1));
        match r {
            Ok(()) => {},
            Err(e) => {
                return Err(e);
            },
        }
        let ghost c6 = *self;
        self.emit_simple(OpCode::OpPop);
        let ghost c7 = *self;
        match &if_stmt.else_branch {
            Some(else_branch) => {
                let r = self.statement(&**else_branch, env);
                match r {
                    Ok(()) => {},
                    Err(e) => {
                        return Err(e);
                    },
                }
            },
            None => {},
        }
        let ghost c8 = *self;
        proof {
            // the second jump is untouched by the first patch and by
            // everything after it
            lemma_prefix_index(c5.instrs@, c5.instrs@);
            lemma_extends_trans(c7, c8, c8);
            lemma_extends_trans(c6, c7, c8);
            assert(c6.instrs@[k2] == c5.instrs@[k2]);
            lemma_prefix_index(c6.instrs@, c8.instrs@);
            assert(c8.instrs@[k2] == jump_instr(OpCode::OpJump, 0));
            lemma_offset_of_update(c5.instrs@, k1, c6.instrs@[k1], k2 + 1);
            lemma_offset_of_prefix(c6.instrs@, c8.instrs@, k2 + 1);
            lemma_offset_of_monotone(c8.instrs@, k2, k2 + 1);
            lemma_offset_of_update(c5.instrs@, k1, c6.instrs@[k1], k2);
        }
        let r = self.patch_jump(else_jump, Ghost(k2));
        match r {
            Ok(()) => {},
            Err(e) => {
                return Err(e);
            },
        }
        proof {
            // chain: the instructions of entry are a prefix of the final
            // list, both patches lying past them
            lemma_extends_trans(*old(self), c1, c2);
            lemma_extends_trans(*old(self), c2, c5);
            lemma_prefix_patch(old(self).instrs@, c5.instrs@, c6.instrs@, k1);
            lemma_prefix_trans(old(self).instrs@, c6.instrs@, c8.instrs@);
            lemma_prefix_patch(old(self).instrs@, c8.instrs@, self.instrs@, k2);
            let cc = Compiler::emitted(*old(self), c1);
            let ck = Compiler::emitted_consts(*old(self), c1);
            let tc = Compiler::emitted(c3, c4);
            let tk = Compiler::emitted_consts(c3, c4);
            let ec = Compiler::emitted(c7, c8);
            let ek = Compiler::emitted_consts(c7, c8);
            lemma_skip_push(c1.instrs@, jump_instr(OpCode::OpJumpIfFalse, 0));
            lemma_skip_all(c1.function.chunk.constants@);
            lemma_skip_push(c2.instrs@, simple_instr(OpCode::OpPop));
            lemma_skip_all(c2.function.chunk.constants@);
            lemma_skip_push(c4.instrs@, jump_instr(OpCode::OpJump, 0));
            lemma_skip_all(c4.function.chunk.constants@);
            lemma_skip_push(c6.instrs@, simple_instr(OpCode::OpPop));
            lemma_skip_all(c6.function.chunk.constants@);
            // sizes of the pieces
            lemma_total_single(jump_instr(OpCode::OpJumpIfFalse, 0));
            lemma_total_single(simple_instr(OpCode::OpPop));
            lemma_total_single(jump_instr(OpCode::OpJump, 0));
            lemma_prefix_whole(c3.instrs@, c4.instrs@);
            lemma_total_concat(c3.instrs@, c4.instrs@.skip(c3.instrs@.len() as int));
            lemma_total_push(c1.instrs@, jump_instr(OpCode::OpJumpIfFalse, 0));
            lemma_total_push(c2.instrs@, simple_instr(OpCode::OpPop));
            lemma_total_push(c4.instrs@, jump_instr(OpCode::OpJump, 0));
            lemma_prefix_whole(c7.instrs@, c8.instrs@);
            lemma_total_concat(c7.instrs@, c8.instrs@.skip(c7.instrs@.len() as int));
            lemma_total_push(c6.instrs@, simple_instr(OpCode::OpPop));
            crate::instr::lemma_offset_of_push(c1.instrs@, jump_instr(OpCode::OpJumpIfFalse, 0), k1);
            crate::instr::lemma_offset_of_push(c4.instrs@, jump_instr(OpCode::OpJump, 0), k2);
            // the patched operands
            assert(c4.instrs@[k1] == jump_instr(OpCode::OpJumpIfFalse, 0)) by {
                lemma_prefix_index(c3.instrs@, c4.instrs@);
            }
            assert(c5.instrs@[k1] == jump_instr(OpCode::OpJumpIfFalse, 0));
            assert(instr_op(c5.instrs@[k1]) == OpCode::OpJumpIfFalse);
            let d1v = total_size(c5.instrs@) - then_jump - 2;
            assert(c6.instrs@ == c5.instrs@.update(
                k1,
                jump_instr(OpCode::OpJumpIfFalse, d1v as u16),
            ));
            assert(then_jump == offset_of(c2.instrs@, k1) + 1);
            assert(total_size(c4.instrs@) == total_size(c3.instrs@) + total_size(tc));
            assert(d1v == total_size(tc) + 4);
            assert(c6.function.chunk.code@.len() == c5.function.chunk.code@.len());
            assert(total_size(c6.instrs@) == total_size(c5.instrs@));
            assert(c8.instrs@[k2] == jump_instr(OpCode::OpJump, 0)) by {
                assert(k1 < k2);
                assert(c6.instrs@[k2] == c5.instrs@[k2]);
                lemma_prefix_index(c6.instrs@, c8.instrs@);
            }
            assert(instr_op(c8.instrs@[k2]) == OpCode::OpJump);
            let d2v = total_size(c8.instrs@) - else_jump - 2;
            assert(self.instrs@ == c8.instrs@.update(k2, jump_instr(OpCode::OpJump, d2v as u16)));
            assert(else_jump == offset_of(c5.instrs@, k2) + 1);
            assert(total_size(c8.instrs@) == total_size(c6.instrs@) + 1 + total_size(ec));
            assert(d2v == total_size(ec) + 1);
            // the whole emitted segment, both jumps patched
            lemma_emitted_split(*old(self), c1, c2);
            lemma_emitted_split(*old(self), c2, c3);
            lemma_emitted_split(*old(self), c3, c4);
            lemma_emitted_split(*old(self), c4, c5);
            assert(Compiler::extends(*old(self), c6));
            lemma_emitted_split(*old(self), c6, c7);
            lemma_emitted_split(*old(self), c7, c8);
            assert(c6.instrs@.skip(old(self).instrs@.len() as int) =~= cc + seq![
                jump_instr(OpCode::OpJumpIfFalse, d1v as u16),
                Instr::Pop,
            ] + tc + seq![jump_instr(OpCode::OpJump, 0)]);
            assert(c8.instrs@.skip(old(self).instrs@.len() as int) =~= cc + seq![
                jump_instr(OpCode::OpJumpIfFalse, d1v as u16),
                Instr::Pop,
            ] + tc + seq![jump_instr(OpCode::OpJump, 0), Instr::Pop] + ec);
            assert(Compiler::emitted(*old(self), *self) =~= cc + seq![
                jump_instr(OpCode::OpJumpIfFalse, d1v as u16),
                Instr::Pop,
            ] + tc + seq![jump_instr(OpCode::OpJump, d2v as u16), Instr::Pop] + ec);
            assert(Compiler::emitted_consts(*old(self), *self) =~= ck + tk + ek);
            // the sub-relations, in the relation's own shapes
            assert(c3.function.chunk.constants@.len() as int
                == old(self).function.chunk.constants@.len() + ck.len());
            assert(lowers_stmt(
                *if_stmt.then_branch,
                old(env).numbers@,
                old(self).locals@,
                old(self).scope_depth,
                old(self).function.chunk.constants@.len() as int + ck.len(),
                tc,
                tk,
            ));
            assert(c7.function.chunk.constants@.len() as int
                == old(self).function.chunk.constants@.len() + ck.len() + tk.len());
            if if_stmt.else_branch is Some {
                assert(lowers_stmt(
                    *(if_stmt.else_branch->0),
                    old(env).numbers@,
                    old(self).locals@,
                    old(self).scope_depth,
                    old(self).function.chunk.constants@.len() as int + ck.len() + tk.len(),
                    ec,
                    ek,
                ));
            } else {
                lemma_skip_all(c7.instrs@);
                lemma_skip_all(c7.function.chunk.constants@);
            }
            assert(lowers_opt_stmt(
                if_stmt.else_branch,
                old(env).numbers@,
                old(self).locals@,
                old(self).scope_depth,
                old(self).function.chunk.constants@.len() as int + ck.len() + tk.len(),
                ec,
                ek,
            ));
            assert(segment(cc));
            assert(segment(ck));
            assert(segment(tc));
            assert(segment(tk));
            assert(segment(ec));
            assert(segment(ek));
        }
        Ok(())
    }

    /// Compiles `while`: the condition at the loop head, a `JUMP_IF_FALSE`
    /// out, the body, a `LOOP` back to the head.
    #[verifier::rlimit(100)]
    #[verifier::spinoff_prover]
    fn while_statement(&mut self, ws: &WhileStmt, env: &mut CompileEnv) -> (r: Result<
        (),
        String,
    >)
        requires
            old(self).wf(),
        ensures
            final(self).wf(),
            final(env).numbers == old(env).numbers,
            r is Ok ==> lowers_stmt(
                Statement::WhileStmt(*ws),
                old(env).numbers@,
                old(self).locals@,
                old(self).scope_depth,
                old(self).function.chunk.constants@.len() as int,
                Compiler::emitted(*old(self), *final(self)),
                Compiler::emitted_consts(*old(self), *final(self)),
            ),
            r is Ok ==> Compiler::extends(*old(self), *final(self)) && final(self).locals@ == old(self).locals@,
        decreases *ws,
    {
        let loop_start = self.function.chunk.count();
        let r = self.expression(&ws.condition, env);
        match r {
            Ok(()) => {},
            Err(e) => {
                return Err(e);
            },
        }
        let ghost c1 = *self;
        let ghost k = self.instrs@.len() as int;
        let exit_jump = self.emit_jump(OpCode::OpJumpIfFalse);
        let ghost c2 = *self;
        self.emit_simple(OpCode::OpPop);
        let ghost c3 = *self;
        let r = self.statement(&*ws.body, env);
        match r {
            Ok(()) => {},
            Err(e) => {
                return Err(e);
            },
        }
        let ghost c4 = *self;
        proof {
            lemma_extends_trans(c2, c3, c4);
            lemma_extends_trans(*old(self), c1, c2);
            lemma_extends_trans(*old(self), c2, c4);
            lemma_total_of_prefix(old(self).instrs@, c4.instrs@);
        }
        let r = self.emit_loop(loop_start);
        match r {
            Ok(()) => {},
            Err(e) => {
                return Err(e);
            },
        }
        let ghost c5 = *self;
        proof {
            lemma_extends_trans(c2, c4, c5);
            lemma_prefix_index(c2.instrs@, c5.instrs@);
            lemma_offset_of_prefix(c2.instrs@, c5.instrs@, k + 1);
            lemma_offset_of_monotone(c2.instrs@, k, k + 1);
        }
        let r = self.patch_jump(exit_jump, Ghost(k));
        match r {
            Ok(()) => {},
            Err(e) => {
                return Err(e);
            },
        }
        let ghost c6 = *self;
        self.emit_simple(OpCode::OpPop);
        proof {
            lemma_extends_trans(*old(self), c1, c2);
            lemma_extends_trans(*old(self), c2, c5);
            lemma_prefix_patch(old(self).instrs@, c5.instrs@, c6.instrs@, k);
            lemma_prefix_trans(old(self).instrs@, c6.instrs@, self.instrs@);
            let cc = Compiler::emitted(*old(self), c1);
            let ck = Compiler::emitted_consts(*old(self), c1);
            let bc = Compiler::emitted(c3, c4);
            let bk = Compiler::emitted_consts(c3, c4);
            lemma_skip_push(c1.instrs@, jump_instr(OpCode::OpJumpIfFalse, 0));
            lemma_skip_all(c1.function.chunk.constants@);
            lemma_skip_push(c2.instrs@, simple_instr(OpCode::OpPop));
            lemma_skip_all(c2.function.chunk.constants@);
            lemma_skip_all(c4.function.chunk.constants@);
            lemma_skip_push(c6.instrs@, simple_instr(OpCode::OpPop));
            lemma_skip_all(c6.function.chunk.constants@);
            lemma_total_push(c1.instrs@, jump_instr(OpCode::OpJumpIfFalse, 0));
            lemma_total_push(c2.instrs@, simple_instr(OpCode::OpPop));
            lemma_prefix_whole(c3.instrs@, c4.instrs@);
            lemma_total_concat(c3.instrs@, c4.instrs@.skip(c3.instrs@.len() as int));
            lemma_prefix_whole(old(self).instrs@, c1.instrs@);
            lemma_total_concat(old(self).instrs@, c1.instrs@.skip(old(self).instrs@.len() as int));
            crate::instr::lemma_offset_of_push(c1.instrs@, jump_instr(OpCode::OpJumpIfFalse, 0), k);
            // the loop's backward operand
            let dlv = c4.function.chunk.code@.len() + 3 - loop_start;
            assert(c5.instrs@ == c4.instrs@.push(Instr::Loop(dlv as u16)));
            assert(loop_start == old(self).function.chunk.code@.len());
            assert(total_size(c4.instrs@) == total_size(old(self).instrs@) + total_size(cc) + 4
                + total_size(bc));
            assert(dlv == total_size(cc) + total_size(bc) + 7);
            lemma_skip_push(c4.instrs@, Instr::Loop(dlv as u16));
            lemma_total_push(c4.instrs@, Instr::Loop(dlv as u16));
            // the exit jump's operand
            assert(c4.instrs@[k] == jump_instr(OpCode::OpJumpIfFalse, 0)) by {
                lemma_prefix_index(c3.instrs@, c4.instrs@);
            }
            assert(c5.instrs@[k] == jump_instr(OpCode::OpJumpIfFalse, 0));
            assert(instr_op(c5.instrs@[k]) == OpCode::OpJumpIfFalse);
            let d1v = total_size(c5.instrs@) - exit_jump - 2;
            assert(c6.instrs@ == c5.instrs@.update(
                k,
                jump_instr(OpCode::OpJumpIfFalse, d1v as u16),
            ));
            assert(exit_jump == offset_of(c2.instrs@, k) + 1);
            assert(d1v == total_size(bc) + 4);
            // the whole emitted segment
            lemma_emitted_split(*old(self), c1, c2);
            lemma_emitted_split(*old(self), c2, c3);
            lemma_emitted_split(*old(self), c3, c4);
            lemma_emitted_split(*old(self), c4, c5);
            assert(Compiler::extends(*old(self), c6));
            lemma_emitted_split(*old(self), c6, *self);
            assert(c6.instrs@.skip(old(self).instrs@.len() as int) =~= cc + seq![
                jump_instr(OpCode::OpJumpIfFalse, d1v as u16),
                Instr::Pop,
            ] + bc + seq![Instr::Loop(dlv as u16)]);
            assert(Compiler::emitted(*old(self), *self) =~= cc + seq![
                jump_instr(OpCode::OpJumpIfFalse, d1v as u16),
                Instr::Pop,
            ] + bc + seq![Instr::Loop(dlv as u16), Instr::Pop]);
            assert(Compiler::emitted_consts(*old(self), *self) =~= ck + bk);
            assert(c3.function.chunk.constants@.len() as int
                == old(self).function.chunk.constants@.len() + ck.len());
            assert(lowers_stmt(
                *ws.body,
                old(env).numbers@,
                old(self).locals@,
                old(self).scope_depth,
                old(self).function.chunk.constants@.len() as int + ck.len(),
                bc,
                bk,
            ));
            assert(segment(cc));
            assert(segment(ck));
            assert(segment(bc));
            assert(segment(bk));
        }
        Ok(())
    }

    /// Compiles `let`: the initializer, then a global definition at top
    /// level or a new local slot inside a block.  A `let` without an
    /// initializer is rejected.
    fn let_decl(&mut self, decl: &LetDecl, env: &mut CompileEnv) -> (r: Result<(), String>)
        requires
            old(self).wf(),
        ensures
            final(self).wf(),
            final(env).numbers == old(env).numbers,
            r is Ok ==> lowers_let(
                *decl,
                old(env).numbers@,
                old(self).locals@,
                old(self).scope_depth,
                old(self).function.chunk.constants@.len() as int,
                Compiler::emitted(*old(self), *final(self)),
                Compiler::emitted_consts(*old(self), *final(self)),
                final(self).locals@,
            ),
            r is Ok ==> Compiler::extends(*old(self), *final(self)) && locals_grown(
                *old(self),
                *final(self),
            ),
        decreases *decl,
    {
        match &decl.initializer {
            Some(e) => {
                let r = self.expression(e, env);
                match r {
                    Ok(()) => {},
                    Err(msg) => {
                        return Err(msg);
                    },
                }
            },
            None => {
                return Err(
                    self.report_error(
                        String::from_str("Expected initializer in let declaration"),
                    ),
                );
            },
        }
        let ghost mid = *self;
        if self.scope_depth > 0 {
            let r = self.add_local(&decl.identifier);
            match r {
                Ok(()) => {},
                Err(msg) => {
                    return Err(msg);
                },
            }
            proof {
                lemma_extends_trans(*old(self), mid, *self);
                lemma_prefix_index(mid.locals@, self.locals@);
                assert(segment(Compiler::emitted(*old(self), mid)));
                assert(segment(Compiler::emitted_consts(*old(self), mid)));
                assert(lowers_expr(
                    decl.initializer->0,
                    old(env).numbers@,
                    old(self).locals@,
                    old(self).function.chunk.constants@.len() as int,
                    Compiler::emitted(*old(self), *self),
                    Compiler::emitted_consts(*old(self), *self),
                ));
            }
            return Ok(());
        }
        let r = self.make_constant(Value::Str(decl.identifier.lexeme.clone()));
        let constant = match r {
            Ok(c) => c,
            Err(msg) => {
                return Err(msg);
            },
        };
        let ghost mid2 = *self;
        self.emit_with_operand(OpCode::OpDefineGlobal, constant);
        proof {
            lemma_extends_trans(*old(self), mid, mid2);
            lemma_extends_trans(*old(self), mid2, *self);
            assert(self.locals@.is_prefix_of(self.locals@)) by {
                assert(self.locals@.take(self.locals@.len() as int) =~= self.locals@);
            }
            let ic = Compiler::emitted(*old(self), mid);
            let ik = Compiler::emitted_consts(*old(self), mid);
            lemma_skip_all(mid.instrs@);
            lemma_skip_push(mid.function.chunk.constants@, Value::Str(decl.identifier.lexeme));
            lemma_skip_push(mid2.instrs@, byte_instr(OpCode::OpDefineGlobal, constant));
            lemma_skip_all(mid2.function.chunk.constants@);
            lemma_emitted_split(*old(self), mid, mid2);
            lemma_emitted_split(*old(self), mid2, *self);
            assert(Compiler::emitted(*old(self), *self) =~= ic + seq![
                byte_instr(OpCode::OpDefineGlobal, constant),
            ]);
            assert(Compiler::emitted_consts(*old(self), *self) =~= ik + seq![
                Value::Str(decl.identifier.lexeme),
            ]);
            assert(constant as int == old(self).function.chunk.constants@.len() + ik.len());
            assert(segment(ic));
            assert(segment(ik));
            assert(lowers_expr(
                decl.initializer->0,
                old(env).numbers@,
                old(self).locals@,
                old(self).function.chunk.constants@.len() as int,
                ic,
                ik,
            ));
        }
        Ok(())
    }

    /// Compiles `fun`: a sub-compiler builds the function's own chunk, its
    /// parameters declared as its first locals; the finished function
    /// becomes a constant here and is bound like a `let`.
    #[verifier::rlimit(100)]
    #[verifier::spinoff_prover]
    fn fun_decl(&mut self, decl: &FunDecl, env: &mut CompileEnv) -> (r: Result<(), String>)
        requires
            old(self).wf(),
        ensures
            final(self).wf(),
            final(env).numbers == old(env).numbers,
            r is Ok ==> lowers_fun(
                *decl,
                old(env).numbers@,
                old(self).locals@,
                old(self).scope_depth,
                old(self).function.chunk.constants@.len() as int,
                Compiler::emitted(*old(self), *final(self)),
                Compiler::emitted_consts(*old(self), *final(self)),
                final(self).locals@,
            ),
            r is Ok ==> Compiler::extends(*old(self), *final(self)) && locals_grown(
                *old(self),
                *final(self),
            ),
        decreases *decl,
    {
        if decl.params.len() > 255 {
            return Err(
                self.report_error(String::from_str("Can't have more than 255 parameters.")),
            );
        }
        if env.next_id == u64::MAX {
            return Err(self.report_error(String::from_str("Too many functions")));
        }
        let mut sub = Compiler::new(FunctionType::Function(decl.name.lexeme.clone()));
        sub.function.arity = decl.params.len();
        sub.function.id = env.next_id;
        env.next_id = env.next_id + 1;
        sub.scope_depth = 1;
        let mut pi: usize = 0;
        #[verifier::loop_isolation(false)]
        while pi < decl.params.len()
            invariant
                sub.wf(),
                pi <= decl.params@.len(),
                sub.locals@.len() == 1 + pi,
                sub.locals@[0].name@ == Seq::<char>::empty() && sub.locals@[0].depth == 0,
                forall|j: int|
                    0 <= j < pi ==> (#[trigger] sub.locals@[j + 1]).name@
                        == decl.params@[j].lexeme@ && sub.locals@[j + 1].depth == 1,
                sub.instrs@ =~= Seq::<Instr>::empty(),
                sub.function.chunk.code@ =~= Seq::<u8>::empty(),
                sub.function.chunk.constants@ =~= Seq::<Value>::empty(),
                sub.function.name == decl.name.lexeme,
                sub.function.arity == decl.params@.len(),
                sub.scope_depth == 1,
                sub.function_type == FunctionType::Function(decl.name.lexeme),
            decreases decl.params.len() - pi,
        {
            let r = sub.add_local(&decl.params[pi]);
            match r {
                Ok(()) => {},
                Err(msg) => {
                    return Err(msg);
                },
            }
            pi = pi + 1;
        }
        let ghost sub0 = sub;
        let r = sub.compile_body(&decl.body, env);
        match r {
            Ok(()) => {},
            Err(msg) => {
                return Err(msg);
            },
        }
        let ghost subf = sub;
        proof {
            // the sub-chunk holds the compiled body and the implicit return
            assert(subf.instrs@ =~= Compiler::emitted(sub0, subf));
            assert(tail_instrs(sub0.function_type) == seq![Instr::False, Instr::Return]);
            assert(sub0.function.chunk.constants@.len() as int == 0);
            assert(Compiler::emitted_consts(sub0, subf) =~= subf.function.chunk.constants@);
        }
        let r = self.make_constant(Value::Function(std::rc::Rc::new(sub.function)));
        let constant_f = match r {
            Ok(c) => c,
            Err(msg) => {
                return Err(msg);
            },
        };
        let ghost m1 = *self;
        proof {
            assert(m1.function.chunk.constants@.last() matches Value::Function(fv) && *fv
                == subf.function);
        }
        self.emit_with_operand(OpCode::OpConstant, constant_f);
        let ghost m2 = *self;
        proof {
            lemma_extends_trans(*old(self), m1, m2);
            let fv = m1.function.chunk.constants@.last()->Function_0;
            lemma_skip_all(old(self).instrs@);
            lemma_skip_push(old(self).function.chunk.constants@, Value::Function(fv));
            lemma_skip_push(m1.instrs@, byte_instr(OpCode::OpConstant, constant_f));
            lemma_skip_all(m1.function.chunk.constants@);
            lemma_emitted_split(*old(self), m1, m2);
            assert(Compiler::emitted(*old(self), m2) =~= seq![
                Instr::Constant(constant_f),
            ]);
            assert(Compiler::emitted_consts(*old(self), m2) =~= seq![Value::Function(fv)]);
            assert(fv.arity == decl.params@.len());
            assert(fv.name == decl.name.lexeme);
            assert(segment(fv));
        }
        if self.scope_depth > 0 {
            let r = self.add_local(&decl.name);
            match r {
                Ok(()) => {},
                Err(msg) => {
                    return Err(msg);
                },
            }
            proof {
                lemma_extends_trans(*old(self), m2, *self);
                lemma_prefix_index(m2.locals@, self.locals@);
                assert(Compiler::emitted(*old(self), *self) =~= seq![
                    Instr::Constant(constant_f),
                ]);
                assert(Compiler::emitted_consts(*old(self), *self) =~= Compiler::emitted_consts(
                    *old(self),
                    m2,
                ));
            }
            return Ok(());
        }
        let r = self.make_constant(Value::Str(decl.name.lexeme.clone()));
        let constant = match r {
            Ok(c) => c,
            Err(msg) => {
                return Err(msg);
            },
        };
        let ghost m3 = *self;
        self.emit_with_operand(OpCode::OpDefineGlobal, constant);
        proof {
            lemma_extends_trans(*old(self), m2, m3);
            lemma_extends_trans(*old(self), m3, *self);
            assert(self.locals@.is_prefix_of(self.locals@)) by {
                assert(self.locals@.take(self.locals@.len() as int) =~= self.locals@);
            }
            let fv = m1.function.chunk.constants@.last()->Function_0;
            lemma_skip_all(m2.instrs@);
            lemma_skip_push(m2.function.chunk.constants@, Value::Str(decl.name.lexeme));
            lemma_skip_push(m3.instrs@, byte_instr(OpCode::OpDefineGlobal, constant));
            lemma_skip_all(m3.function.chunk.constants@);
            lemma_emitted_split(*old(self), m2, m3);
            lemma_emitted_split(*old(self), m3, *self);
            assert(Compiler::emitted(*old(self), *self) =~= seq![
                Instr::Constant(constant_f),
                Instr::DefineGlobal(constant),
            ]);
            assert(Compiler::emitted_consts(*old(self), *self) =~= seq![
                Value::Function(fv),
                Value::Str(decl.name.lexeme),
            ]);
            assert(constant as int == old(self).function.chunk.constants@.len() + 1);
        }
        Ok(())
    }

    /// Compiles one expression.  Evaluating the emitted code leaves
    /// exactly one new value on the stack.
    fn expression(&mut self, expr: &Expr, env: &mut CompileEnv) -> (r: Result<(), String>)
        requires
            old(self).wf(),
        ensures
            final(self).wf(),
            final(env).numbers == old(env).numbers,
            r is Ok ==> lowers_expr(
                *expr,
                old(env).numbers@,
                old(self).locals@,
                old(self).function.chunk.constants@.len() as int,
                Compiler::emitted(*old(self), *final(self)),
                Compiler::emitted_consts(*old(self), *final(self)),
            ),
            r is Ok ==> Compiler::extends(*old(self), *final(self)) && final(self).locals@ == old(self).locals@,
        decreases *expr,
    {
        match expr {
            Expr::Literal(l) => self.literal(l, env),
            Expr::Unary(u) => self.unary(u, env),
            Expr::Binary(b) => self.binary(b, env),
            Expr::Call(c) => self.call_expr(c, env),
            Expr::Grouping(g) => self.expression(&*g.expression, env),
            Expr::Variable(v) => self.variable(v, env),
            Expr::Assignment(a) => self.assignment(a, env),
            Expr::Logical(lg) => self.logical(lg, env),
            Expr::Get(_) => Err(self.report_error(String::from_str("Get not supported"))),
            Expr::SetProp(_) => Err(self.report_error(String::from_str("Set not supported"))),
        }
    }

    /// Compiles a literal: a constant load for numbers and strings — a
    /// number literal's bit pattern comes from the environment's table —
    /// `TRUE`/`FALSE` for the booleans.  `null` is not wired through the
    /// value model and is rejected.
    fn literal(&mut self, literal: &Literal, env: &mut CompileEnv) -> (r: Result<(), String>)
        requires
            old(self).wf(),
        ensures
            final(self).wf(),
            final(env).numbers == old(env).numbers,
            r is Ok ==> Compiler::extends(*old(self), *final(self)) && final(self).locals@ == old(self).locals@,
            r is Ok ==> lowers_literal(
                *literal,
                old(env).numbers@,
                old(self).function.chunk.constants@.len() as int,
                Compiler::emitted(*old(self), *final(self)),
                Compiler::emitted_consts(*old(self), *final(self)),
            ),
        decreases *literal,
    {
        match literal {
            Literal::Number(s) => {
                match env.lookup_number(s) {
                    Some(bits) => {
                        let r = self.make_constant(Value::Number(bits));
                        let c = match r {
                            Ok(c) => c,
                            Err(msg) => {
                                return Err(msg);
                            },
                        };
                        let ghost mid = *self;
                        self.emit_with_operand(OpCode::OpConstant, c);
                        proof {
                            lemma_extends_trans(*old(self), mid, *self);
                            lemma_skip_push(old(self).instrs@, byte_instr(OpCode::OpConstant, c));
                            lemma_skip_push(
                                old(self).function.chunk.constants@,
                                Value::Number(bits),
                            );
                        }
                        Ok(())
                    },
                    None => {
                        let mut m = String::from_str("Unknown number literal ");
                        m.append(s.as_str());
                        Err(self.report_error(m))
                    },
                }
            },
            Literal::Str(s) => {
                let r = self.make_constant(Value::Str(s.clone()));
                let c = match r {
                    Ok(c) => c,
                    Err(msg) => {
                        return Err(msg);
                    },
                };
                let ghost mid = *self;
                self.emit_with_operand(OpCode::OpConstant, c);
                proof {
                    lemma_extends_trans(*old(self), mid, *self);
                    lemma_skip_push(old(self).instrs@, byte_instr(OpCode::OpConstant, c));
                    lemma_skip_push(old(self).function.chunk.constants@, Value::Str(*s));
                }
                Ok(())
            },
            Literal::True => {
                self.emit_simple(OpCode::OpTrue);
                proof {
                    lemma_skip_push(old(self).instrs@, simple_instr(OpCode::OpTrue));
                    lemma_skip_all(old(self).function.chunk.constants@);
                }
                Ok(())
            },
            Literal::False => {
                self.emit_simple(OpCode::OpFalse);
                proof {
                    lemma_skip_push(old(self).instrs@, simple_instr(OpCode::OpFalse));
                    lemma_skip_all(old(self).function.chunk.constants@);
                }
                Ok(())
            },
            Literal::Null => Err(self.report_error(String::from_str("null is not supported"))),
        }
    }

    /// Compiles unary `-` or `not`: the operand, then the operator.
    fn unary(&mut self, op: &Unary, env: &mut CompileEnv) -> (r: Result<(), String>)
        requires
            old(self).wf(),
        ensures
            final(self).wf(),
            final(env).numbers == old(env).numbers,
            r is Ok ==> lowers_expr(
                Expr::Unary(*op),
                old(env).numbers@,
                old(self).locals@,
                old(self).function.chunk.constants@.len() as int,
                Compiler::emitted(*old(self), *final(self)),
                Compiler::emitted_consts(*old(self), *final(self)),
            ),
            r is Ok ==> Compiler::extends(*old(self), *final(self)) && final(self).locals@ == old(self).locals@,
        decreases *op,
    {
        let instruction = match &op.operator.typ {
            TokenType::Minus => OpCode::OpNegate,
            TokenType::Not => OpCode::OpNot,
            _ => {
                let mut m = String::from_str("Unexpected unary operator: ");
                m.append(op.operator.lexeme.as_str());
                m.append(" at line ");
                let line = usize_to_string(op.operator.line as usize);
                m.append(line.as_str());
                return Err(m);
            },
        };
        let r = self.expression(&*op.right, env);
        match r {
            Ok(()) => {},
            Err(e) => {
                return Err(e);
            },
        }
        let ghost mid = *self;
        self.emit_simple(instruction);
        proof {
            lemma_extends_trans(*old(self), mid, *self);
            lemma_skip_push(mid.instrs@, simple_instr(instruction));
            lemma_skip_all(mid.function.chunk.constants@);
            lemma_emitted_split(*old(self), mid, *self);
            assert(op.operator.typ is Minus ==> instruction == OpCode::OpNegate);
            assert(op.operator.typ is Not ==> instruction == OpCode::OpNot);
            assert(op.operator.typ is Minus || op.operator.typ is Not);
            assert(simple_instr(OpCode::OpNegate) == Instr::Negate);
            assert(simple_instr(OpCode::OpNot) == Instr::Not);
            assert(segment(Compiler::emitted(*old(self), mid)));
            assert(Compiler::emitted(*old(self), *self) == Compiler::emitted(*old(self), mid)
                + seq![simple_instr(instruction)]);
            assert(Compiler::emitted_consts(*old(self), *self) =~= Compiler::emitted_consts(
                *old(self),
                mid,
            ));
            assert(lowers_expr(
                *op.right,
                old(env).numbers@,
                old(self).locals@,
                old(self).function.chunk.constants@.len() as int,
                Compiler::emitted(*old(self), mid),
                Compiler::emitted_consts(*old(self), *self),
            ));
            assert(lowers_expr(
                Expr::Unary(*op),
                old(env).numbers@,
                old(self).locals@,
                old(self).function.chunk.constants@.len() as int,
                Compiler::emitted(*old(self), *self),
                Compiler::emitted_consts(*old(self), *self),
            ));
        }
        Ok(())
    }

    /// Compiles a binary operator: left, right, then the opcode —
    /// left-associative evaluation order.
    fn binary(&mut self, op: &Binary, env: &mut CompileEnv) -> (r: Result<(), String>)
        requires
            old(self).wf(),
        ensures
            final(self).wf(),
            final(env).numbers == old(env).numbers,
            r is Ok ==> lowers_expr(
                Expr::Binary(*op),
                old(env).numbers@,
                old(self).locals@,
                old(self).function.chunk.constants@.len() as int,
                Compiler::emitted(*old(self), *final(self)),
                Compiler::emitted_consts(*old(self), *final(self)),
            ),
            r is Ok ==> Compiler::extends(*old(self), *final(self)) && final(self).locals@ == old(self).locals@,
        decreases *op,
    {
        let op_code = match &op.operator.typ {
            TokenType::Minus => OpCode::OpSubtract,
            TokenType::Plus => OpCode::OpAdd,
            TokenType::Slash => OpCode::OpDivide,
            TokenType::Star => OpCode::OpMultiply,
            TokenType::EqualEqual => OpCode::OpEqualEqual,
            TokenType::BangEqual => OpCode::OpBangEqual,
            TokenType::Less => OpCode::OpLess,
            TokenType::LessEqual => OpCode::OpLessEqual,
            TokenType::Greater => OpCode::OpGreater,
            TokenType::GreaterEqual => OpCode::OpGreaterEqual,
            _ => {
                let mut m = String::from_str("Unexpected binary operator: ");
                m.append(op.operator.lexeme.as_str());
                m.append(" at line ");
                let line = usize_to_string(op.operator.line as usize);
                m.append(line.as_str());
                return Err(m);
            },
        };
        let r = self.expression(&*op.left, env);
        match r {
            Ok(()) => {},
            Err(e) => {
                return Err(e);
            },
        }
        let ghost mid1 = *self;
        let r = self.expression(&*op.right, env);
        match r {
            Ok(()) => {},
            Err(e) => {
                return Err(e);
            },
        }
        let ghost mid2 = *self;
        self.emit_simple(op_code);
        proof {
            lemma_extends_trans(*old(self), mid1, mid2);
            lemma_extends_trans(*old(self), mid2, *self);
            let lc = Compiler::emitted(*old(self), mid1);
            let lk = Compiler::emitted_consts(*old(self), mid1);
            let rc = Compiler::emitted(mid1, mid2);
            let rk = Compiler::emitted_consts(mid1, mid2);
            lemma_skip_push(mid2.instrs@, simple_instr(op_code));
            lemma_skip_all(mid2.function.chunk.constants@);
            lemma_emitted_split(*old(self), mid1, mid2);
            lemma_emitted_split(*old(self), mid2, *self);
            assert(binary_op_instr(op.operator.typ) == Some(simple_instr(op_code)));
            assert(segment(Compiler::emitted(*old(self), mid1)));
            assert(segment(Compiler::emitted_consts(*old(self), mid1)));
            assert(segment(Compiler::emitted(mid1, mid2)));
            assert(segment(Compiler::emitted_consts(mid1, mid2)));
            assert(Compiler::emitted(*old(self), *self) == lc + rc + seq![
                simple_instr(op_code),
            ]);
            assert(Compiler::emitted_consts(*old(self), *self) =~= lk + rk);
            assert(lowers_expr(
                *op.right,
                old(env).numbers@,
                old(self).locals@,
                old(self).function.chunk.constants@.len() as int + lk.len(),
                rc,
                rk,
            ));
            assert(lowers_expr(
                Expr::Binary(*op),
                old(env).numbers@,
                old(self).locals@,
                old(self).function.chunk.constants@.len() as int,
                Compiler::emitted(*old(self), *self),
                Compiler::emitted_consts(*old(self), *self),
            ));
        }
        Ok(())
    }

    /// Compiles `and`/`or` with short-circuit: the left value stays on the
    /// stack as the result when it decides, otherwise it is popped and the
    /// right operand's value takes its place.
    #[verifier::rlimit(100)]
    #[verifier::spinoff_prover]
    fn logical(&mut self, op: &Logical, env: &mut CompileEnv) -> (r: Result<(), String>)
        requires
            old(self).wf(),
        ensures
            final(self).wf(),
            final(env).numbers == old(env).numbers,
            r is Ok ==> lowers_expr(
                Expr::Logical(*op),
                old(env).numbers@,
                old(self).locals@,
                old(self).function.chunk.constants@.len() as int,
                Compiler::emitted(*old(self), *final(self)),
                Compiler::emitted_consts(*old(self), *final(self)),
            ),
            r is Ok ==> Compiler::extends(*old(self), *final(self)) && final(self).locals@ == old(self).locals@,
        decreases *op,
    {
        let jump_op = match &op.operator.typ {
            TokenType::And => OpCode::OpJumpIfFalse,
            TokenType::Or => OpCode::OpJumpIfTrue,
            _ => {
                let mut m = String::from_str("Unexpected logical operator: ");
                m.append(op.operator.lexeme.as_str());
                m.append(" at line ");
                let line = usize_to_string(op.operator.line as usize);
                m.append(line.as_str());
                return Err(m);
            },
        };
        let r = self.expression(&*op.left, env);
        match r {
            Ok(()) => {},
            Err(e) => {
                return Err(e);
            },
        }
        let ghost c1 = *self;
        let ghost k = self.instrs@.len() as int;
        let jump_offset = self.emit_jump(jump_op);
        let ghost c2 = *self;
        self.emit_simple(OpCode::OpPop);
        let ghost c3 = *self;
        let r = self.expression(&*op.right, env);
        match r {
            Ok(()) => {},
            Err(e) => {
                return Err(e);
            },
        }
        let ghost c4 = *self;
        proof {
            lemma_extends_trans(c2, c3, c4);
            lemma_prefix_index(c2.instrs@, c4.instrs@);
            lemma_offset_of_prefix(c2.instrs@, c4.instrs@, k + 1);
            lemma_offset_of_monotone(c2.instrs@, k, k + 1);
        }
        let r = self.patch_jump(jump_offset, Ghost(k));
        match r {
            Ok(()) => {},
            Err(e) => {
                return Err(e);
            },
        }
        proof {
            lemma_extends_trans(*old(self), c1, c2);
            lemma_extends_trans(*old(self), c2, c4);
            lemma_prefix_patch(old(self).instrs@, c4.instrs@, self.instrs@, k);
            let lc = Compiler::emitted(*old(self), c1);
            let lk = Compiler::emitted_consts(*old(self), c1);
            let rc = Compiler::emitted(c3, c4);
            let rk = Compiler::emitted_consts(c3, c4);
            lemma_skip_push(c1.instrs@, jump_instr(jump_op, 0));
            lemma_skip_all(c1.function.chunk.constants@);
            lemma_skip_push(c2.instrs@, simple_instr(OpCode::OpPop));
            lemma_skip_all(c2.function.chunk.constants@);
            lemma_emitted_split(c1, c2, c3);
            lemma_emitted_split(c1, c3, c4);
            lemma_emitted_split(*old(self), c1, c2);
            lemma_emitted_split(*old(self), c2, c3);
            lemma_emitted_split(*old(self), c3, c4);
            lemma_prefix_whole(c1.instrs@, c4.instrs@);
            lemma_total_concat(c1.instrs@, c4.instrs@.skip(c1.instrs@.len() as int));
            lemma_total_concat(seq![jump_instr(jump_op, 0)] + seq![Instr::Pop], rc);
            lemma_total_concat(seq![jump_instr(jump_op, 0)], seq![Instr::Pop]);
            lemma_total_single(jump_instr(jump_op, 0));
            lemma_total_single(Instr::Pop);
            assert(total_size(seq![jump_instr(jump_op, 0)]) == 3);
            assert(total_size(seq![Instr::Pop]) == 1);
            assert(Compiler::emitted(c1, c4) == (seq![jump_instr(jump_op, 0)] + seq![
                Instr::Pop,
            ]) + rc);
            assert(total_size(c4.instrs@) == total_size(c1.instrs@) + 4 + total_size(rc));
            assert(jump_offset == offset_of(c2.instrs@, k) + 1);
            crate::instr::lemma_offset_of_push(c1.instrs@, jump_instr(jump_op, 0), k);
            let dd = total_size(c4.instrs@) - jump_offset - 2;
            assert(dd == 1 + total_size(rc));
            assert(c4.instrs@[k] == jump_instr(jump_op, 0));
            assert(instr_op(c4.instrs@[k]) == jump_op);
            assert(self.instrs@ == c4.instrs@.update(k, jump_instr(jump_op, dd as u16)));
            assert(Compiler::emitted(*old(self), *self) =~= lc + seq![
                jump_instr(jump_op, dd as u16),
                Instr::Pop,
            ] + rc);
            assert(Compiler::emitted_consts(*old(self), *self) =~= lk + rk);
            assert(op.operator.typ is And ==> jump_op == OpCode::OpJumpIfFalse);
            assert(op.operator.typ is Or ==> jump_op == OpCode::OpJumpIfTrue);
            assert(op.operator.typ is And || op.operator.typ is Or);
            assert(c3.function.chunk.constants@.len() as int
                == old(self).function.chunk.constants@.len() + lk.len());
            assert(lowers_expr(
                *op.right,
                old(env).numbers@,
                old(self).locals@,
                old(self).function.chunk.constants@.len() as int + lk.len(),
                rc,
                rk,
            ));
            assert(segment(lc));
            assert(segment(lk));
            assert(segment(rc));
            assert(segment(rk));
            assert(lowers_expr(
                Expr::Logical(*op),
                old(env).numbers@,
                old(self).locals@,
                old(self).function.chunk.constants@.len() as int,
                Compiler::emitted(*old(self), *self),
                Compiler::emitted_consts(*old(self), *self),
            ));
        }
        Ok(())
    }

    /// Compiles a variable read: the local's slot when the name resolves
    /// to one, a global read by name otherwise.
    fn variable(&mut self, variable: &Variable, env: &mut CompileEnv) -> (r: Result<(), String>)
        requires
            old(self).wf(),
        ensures
            final(self).wf(),
            final(env).numbers == old(env).numbers,
            r is Ok ==> Compiler::extends(*old(self), *final(self)) && final(self).locals@ == old(self).locals@,
            r is Ok ==> lowers_expr(
                Expr::Variable(*variable),
                old(env).numbers@,
                old(self).locals@,
                old(self).function.chunk.constants@.len() as int,
                Compiler::emitted(*old(self), *final(self)),
                Compiler::emitted_consts(*old(self), *final(self)),
            ),
        decreases *variable,
    {
        let resolved = self.resolve_local(&variable.name);
        match resolved {
            Some(index) => {
                self.emit_with_operand(OpCode::OpGetLocal, index as u8);
                proof {
                    lemma_skip_push(
                        old(self).instrs@,
                        byte_instr(OpCode::OpGetLocal, index as u8),
                    );
                    lemma_skip_all(old(self).function.chunk.constants@);
                }
                Ok(())
            },
            None => {
                let r = self.make_constant(Value::Str(variable.name.lexeme.clone()));
                let c = match r {
                    Ok(c) => c,
                    Err(msg) => {
                        return Err(msg);
                    },
                };
                let ghost mid = *self;
                self.emit_with_operand(OpCode::OpGetGlobal, c);
                proof {
                    lemma_extends_trans(*old(self), mid, *self);
                    lemma_skip_push(old(self).instrs@, byte_instr(OpCode::OpGetGlobal, c));
                    lemma_skip_push(
                        old(self).function.chunk.constants@,
                        Value::Str(variable.name.lexeme),
                    );
                }
                Ok(())
            },
        }
    }

    /// Compiles an assignment: the value first, then a local or global
    /// store.  The assigned value stays on the stack as the expression's
    /// value.
    fn assignment(&mut self, assignment: &Assignment, env: &mut CompileEnv) -> (r: Result<
        (),
        String,
    >)
        requires
            old(self).wf(),
        ensures
            final(self).wf(),
            final(env).numbers == old(env).numbers,
            r is Ok ==> lowers_expr(
                Expr::Assignment(*assignment),
                old(env).numbers@,
                old(self).locals@,
                old(self).function.chunk.constants@.len() as int,
                Compiler::emitted(*old(self), *final(self)),
                Compiler::emitted_consts(*old(self), *final(self)),
            ),
            r is Ok ==> Compiler::extends(*old(self), *final(self)) && final(self).locals@ == old(self).locals@,
        decreases *assignment,
    {
        let r = self.expression(&*assignment.value, env);
        match r {
            Ok(()) => {},
            Err(e) => {
                return Err(e);
            },
        }
        let ghost mid = *self;
        let resolved = self.resolve_local(&assignment.name);
        match resolved {
            Some(index) => {
                self.emit_with_operand(OpCode::OpSetLocal, index as u8);
                proof {
                    lemma_extends_trans(*old(self), mid, *self);
                    lemma_skip_push(mid.instrs@, byte_instr(OpCode::OpSetLocal, index as u8));
                    lemma_skip_all(mid.function.chunk.constants@);
                    lemma_emitted_split(*old(self), mid, *self);
                    assert(Compiler::emitted_consts(*old(self), *self) =~= Compiler::emitted_consts(
                        *old(self),
                        mid,
                    ));
                    assert(segment(Compiler::emitted(*old(self), mid)));
                    assert(segment(Compiler::emitted_consts(*old(self), *self)));
                    assert(lowers_expr(
                        *assignment.value,
                        old(env).numbers@,
                        old(self).locals@,
                        old(self).function.chunk.constants@.len() as int,
                        Compiler::emitted(*old(self), mid),
                        Compiler::emitted_consts(*old(self), *self),
                    ));
                }
                Ok(())
            },
            None => {
                let r = self.make_constant(Value::Str(assignment.name.lexeme.clone()));
                let c = match r {
                    Ok(c) => c,
                    Err(msg) => {
                        return Err(msg);
                    },
                };
                let ghost mid2 = *self;
                self.emit_with_operand(OpCode::OpSetGlobal, c);
                proof {
                    lemma_extends_trans(*old(self), mid, mid2);
                    lemma_extends_trans(*old(self), mid2, *self);
                    let vc = Compiler::emitted(*old(self), mid);
                    let vk = Compiler::emitted_consts(*old(self), mid);
                    lemma_skip_all(mid.instrs@);
                    lemma_skip_push(
                        mid.function.chunk.constants@,
                        Value::Str(assignment.name.lexeme),
                    );
                    lemma_skip_push(mid2.instrs@, byte_instr(OpCode::OpSetGlobal, c));
                    lemma_skip_all(mid2.function.chunk.constants@);
                    lemma_emitted_split(*old(self), mid, mid2);
                    lemma_emitted_split(*old(self), mid2, *self);
                    assert(Compiler::emitted(*old(self), *self) =~= vc + seq![
                        byte_instr(OpCode::OpSetGlobal, c),
                    ]);
                    assert(Compiler::emitted_consts(*old(self), *self) =~= vk + seq![
                        Value::Str(assignment.name.lexeme),
                    ]);
                    assert(c as int == old(self).function.chunk.constants@.len() + vk.len());
                    assert(segment(vc));
                    assert(segment(vk));
                    assert(lowers_expr(
                        *assignment.value,
                        old(env).numbers@,
                        old(self).locals@,
                        old(self).function.chunk.constants@.len() as int,
                        vc,
                        vk,
                    ));
                }
                Ok(())
            },
        }
    }

    /// Compiles a call: the callee, each argument in order (at most 255),
    /// then `CALL` with the argument count.
    #[verifier::rlimit(100)]
    fn call_expr(&mut self, call: &Call, env: &mut CompileEnv) -> (r: Result<(), String>)
        requires
            old(self).wf(),
        ensures
            final(self).wf(),
            final(env).numbers == old(env).numbers,
            r is Ok ==> lowers_expr(
                Expr::Call(*call),
                old(env).numbers@,
                old(self).locals@,
                old(self).function.chunk.constants@.len() as int,
                Compiler::emitted(*old(self), *final(self)),
                Compiler::emitted_consts(*old(self), *final(self)),
            ),
            r is Ok ==> Compiler::extends(*old(self), *final(self)) && final(self).locals@ == old(self).locals@,
        decreases *call,
    {
        if call.arguments.len() > 255 {
            return Err(
                self.report_error(String::from_str("Can't have more than 255 arguments.")),
            );
        }
        let r = self.expression(&*call.callee, env);
        match r {
            Ok(()) => {},
            Err(e) => {
                return Err(e);
            },
        }
        let ghost cal = *self;
        proof {
            lemma_extends_refl(cal);
            lemma_skip_all(cal.instrs@);
            lemma_skip_all(cal.function.chunk.constants@);
        }
        let mut ai: usize = 0;
        #[verifier::loop_isolation(false)]
        while ai < call.arguments.len()
            invariant
                self.wf(),
                Compiler::extends(*old(self), *self),
                Compiler::extends(cal, *self),
                self.locals@ == old(self).locals@,
                env.numbers == old(env).numbers,
                ai <= call.arguments@.len(),
                lowers_args(
                    call.arguments,
                    ai as int,
                    old(env).numbers@,
                    old(self).locals@,
                    cal.function.chunk.constants@.len() as int,
                    Compiler::emitted(cal, *self),
                    Compiler::emitted_consts(cal, *self),
                ),
            decreases call.arguments.len() - ai,
        {
            let ghost pre = *self;
            let r = self.expression(&call.arguments[ai], env);
            match r {
                Ok(()) => {},
                Err(e) => {
                    return Err(e);
                },
            }
            proof {
                lemma_extends_trans(*old(self), pre, *self);
                lemma_extends_trans(cal, pre, *self);
                lemma_emitted_split(cal, pre, *self);
                assert(pre.function.chunk.constants@.len() as int
                    == cal.function.chunk.constants@.len() + Compiler::emitted_consts(
                    cal,
                    pre,
                ).len());
                assert(lowers_expr(
                    call.arguments@[ai as int],
                    old(env).numbers@,
                    old(self).locals@,
                    cal.function.chunk.constants@.len() as int + Compiler::emitted_consts(
                        cal,
                        pre,
                    ).len(),
                    Compiler::emitted(pre, *self),
                    Compiler::emitted_consts(pre, *self),
                ));
                assert(segment(Compiler::emitted(cal, pre)));
                assert(segment(Compiler::emitted_consts(cal, pre)));
                assert(segment(Compiler::emitted(pre, *self)));
                assert(segment(Compiler::emitted_consts(pre, *self)));
            }
            ai = ai + 1;
        }
        let ghost mid = *self;
        let argc = call.arguments.len();
        self.emit_with_operand(OpCode::OpCall, argc as u8);
        proof {
            lemma_extends_trans(*old(self), mid, *self);
            let fc = Compiler::emitted(*old(self), cal);
            let fk = Compiler::emitted_consts(*old(self), cal);
            let ac = Compiler::emitted(cal, mid);
            let ak = Compiler::emitted_consts(cal, mid);
            lemma_skip_push(mid.instrs@, byte_instr(OpCode::OpCall, argc as u8));
            lemma_skip_all(mid.function.chunk.constants@);
            lemma_emitted_split(*old(self), cal, mid);
            lemma_emitted_split(*old(self), mid, *self);
            assert(Compiler::emitted(*old(self), *self) == (fc + ac) + seq![
                byte_instr(OpCode::OpCall, argc as u8),
            ]);
            assert(Compiler::emitted_consts(*old(self), *self) =~= fk + ak);
            assert(cal.function.chunk.constants@.len() as int
                == old(self).function.chunk.constants@.len() + fk.len());
            assert(lowers_args(
                call.arguments,
                call.arguments@.len() as int,
                old(env).numbers@,
                old(self).locals@,
                old(self).function.chunk.constants@.len() as int + fk.len(),
                ac,
                ak,
            ));
            assert(segment(fc));
            assert(segment(fk));
            assert(segment(ac));
            assert(segment(ak));
            assert(byte_instr(OpCode::OpCall, argc as u8) == Instr::Call(
                call.arguments@.len() as u8,
            ));
        }
        Ok(())
    }

    /// Compiles a whole program into this compiler's function.  On
    /// success the finished chunk decodes to the compiler's instruction
    /// list, every constant operand indexes within the constant pool, and
    /// every jump and loop lands strictly within the code.
    pub fn run(&mut self, program: &Program, env: &mut CompileEnv) -> (r: Result<(), String>)
        requires
            old(self).wf(),
        ensures
            final(self).wf(),
            final(env).numbers == old(env).numbers,
            program.declarations@.len() == 0 ==> r is Ok,
            r is Ok ==> exists|dc: Seq<Instr>, locals_out: Seq<Local>|
                #![trigger segment(dc), segment(locals_out)]
                {
                    &&& lowers_decls(
                        program.declarations,
                        program.declarations@.len() as int,
                        old(env).numbers@,
                        old(self).locals@,
                        old(self).scope_depth,
                        old(self).function.chunk.constants@.len() as int,
                        dc,
                        Compiler::emitted_consts(*old(self), *final(self)),
                        locals_out,
                    )
                    &&& Compiler::emitted(*old(self), *final(self)) == dc + tail_instrs(
                        old(self).function_type,
                    )
                    &&& segment(dc)
                    &&& segment(locals_out)
                },
            r is Ok ==> {
                &&& Compiler::extends(*old(self), *final(self))
                &&& decode_list(final(self).function.chunk.code@, 0) == Some(
                    final(self).instrs@,
                )
                &&& consts_ok(
                    final(self).instrs@,
                    final(self).function.chunk.constants@.len() as int,
                )
                &&& jumps_strict(
                    final(self).instrs@,
                    final(self).function.chunk.code@.len() as int,
                )
                &&& final(self).function.chunk.code@.len() > 0
            },
        decreases *program,
    {
        self.compile_body(&program.declarations, env)
    }

    /// Compiles a block: one scope deeper, its declarations, then its
    /// locals popped — `POP` for one, `POPN` for several.
    #[verifier::rlimit(60)]
    fn block(&mut self, declarations: &Vec<DeclarationWithLineNo>, env: &mut CompileEnv) -> (r:
        Result<(), String>)
        requires
            old(self).wf(),
        ensures
            final(self).wf(),
            final(env).numbers == old(env).numbers,
            r is Ok ==> lowers_stmt(
                Statement::Block(*declarations),
                old(env).numbers@,
                old(self).locals@,
                old(self).scope_depth,
                old(self).function.chunk.constants@.len() as int,
                Compiler::emitted(*old(self), *final(self)),
                Compiler::emitted_consts(*old(self), *final(self)),
            ),
            r is Ok ==> Compiler::extends(*old(self), *final(self)) && final(self).locals@ == old(self).locals@,
        decreases *declarations,
    {
        if self.scope_depth == 255 {
            return Err(self.report_error(String::from_str("Blocks nested too deeply")));
        }
        self.scope_depth = self.scope_depth + 1;
        let ghost entered = *self;
        proof {
            assert(entered.wf());
            assert(self.instrs@.is_prefix_of(self.instrs@)) by {
                assert(self.instrs@.take(self.instrs@.len() as int) =~= self.instrs@);
            }
            lemma_extends_refl(entered);
            lemma_skip_all(entered.instrs@);
            lemma_skip_all(entered.function.chunk.constants@);
        }
        let mut idx: usize = 0;
        #[verifier::loop_isolation(false)]
        while idx < declarations.len()
            invariant
                self.wf(),
                Compiler::extends(entered, *self),
                locals_grown(entered, *self),
                env.numbers == old(env).numbers,
                idx <= declarations@.len(),
                lowers_decls(
                    *declarations,
                    idx as int,
                    old(env).numbers@,
                    entered.locals@,
                    entered.scope_depth,
                    entered.function.chunk.constants@.len() as int,
                    Compiler::emitted(entered, *self),
                    Compiler::emitted_consts(entered, *self),
                    self.locals@,
                ),
            decreases declarations.len() - idx,
        {
            let ghost pre = *self;
            let r = self.declaration(&declarations[idx], env);
            match r {
                Ok(()) => {},
                Err(e) => {
                    return Err(e);
                },
            }
            proof {
                lemma_extends_trans(entered, pre, *self);
                lemma_locals_grown_trans(entered, pre, *self);
                lemma_emitted_split(entered, pre, *self);
                assert(pre.function.chunk.constants@.len() as int
                    == entered.function.chunk.constants@.len() + Compiler::emitted_consts(
                    entered,
                    pre,
                ).len());
                assert(lowers_decl(
                    declarations@[idx as int].decl,
                    old(env).numbers@,
                    pre.locals@,
                    entered.scope_depth,
                    entered.function.chunk.constants@.len() as int + Compiler::emitted_consts(
                        entered,
                        pre,
                    ).len(),
                    Compiler::emitted(pre, *self),
                    Compiler::emitted_consts(pre, *self),
                    self.locals@,
                ));
                assert(segment(Compiler::emitted(entered, pre)));
                assert(segment(Compiler::emitted_consts(entered, pre)));
                assert(segment(pre.locals@));
                assert(segment(Compiler::emitted(pre, *self)));
                assert(segment(Compiler::emitted_consts(pre, *self)));
            }
            idx = idx + 1;
        }
        // pop this block's locals: everything deeper than the enclosing
        // scope
        let target = self.scope_depth - 1;
        let ghost pre_pop = *self;
        let mut nb: usize = 0;
        proof {
            lemma_prefix_index(entered.locals@, pre_pop.locals@);
            assert(pre_pop.locals@.take(pre_pop.locals@.len() as int) =~= pre_pop.locals@);
        }
        #[verifier::loop_isolation(false)]
        while self.locals.len() > 0 && self.locals[self.locals.len() - 1].depth > target
            invariant
                old(self).locals@.len() <= self.locals@.len() <= pre_pop.locals@.len(),
                self.locals@ =~= pre_pop.locals@.take(self.locals@.len() as int),
                nb == pre_pop.locals@.len() - self.locals@.len(),
                forall|i: int|
                    0 <= i < self.locals@.len() ==> self.locals@[i] == pre_pop.locals@[i],
                self.function == pre_pop.function,
                self.instrs == pre_pop.instrs,
                self.function_type == pre_pop.function_type,
                self.scope_depth == pre_pop.scope_depth,
                self.current_line == pre_pop.current_line,
            decreases self.locals@.len(),
        {
            proof {
                assert(self.locals@.last() == pre_pop.locals@[self.locals@.len() - 1]);
                if self.locals@.len() <= old(self).locals@.len() {
                    assert(self.locals@.last() == old(self).locals@[self.locals@.len() - 1]);
                    assert(old(self).locals@[self.locals@.len() - 1].depth <= old(self).scope_depth);
                }
            }
            self.locals.pop();
            nb = nb + 1;
            proof {
                assert(self.locals@ =~= pre_pop.locals@.take(self.locals@.len() as int));
            }
        }
        self.scope_depth = target;
        proof {
            // the loop stopped exactly at the enclosing scope's locals
            assert(self.locals@.len() >= old(self).locals@.len());
            if self.locals@.len() > old(self).locals@.len() {
                assert(self.locals@.last().depth == entered.scope_depth);
            }
            assert(self.locals@ =~= old(self).locals@);
        }
        if nb == 1 {
            self.emit_simple(OpCode::OpPop);
        } else if nb > 1 {
            self.emit_with_operand(OpCode::OpPopN, nb as u8);
        }
        proof {
            assert(entered.instrs@ == old(self).instrs@);
            if nb == 0 {
                assert(pre_pop.instrs@.is_prefix_of(self.instrs@)) by {
                    assert(self.instrs@.take(self.instrs@.len() as int) =~= self.instrs@);
                }
            }
            lemma_prefix_trans(old(self).instrs@, pre_pop.instrs@, self.instrs@);
            let dc = Compiler::emitted(entered, pre_pop);
            assert(old(self).instrs@.is_prefix_of(pre_pop.instrs@));
            assert(old(self).function.chunk.constants@.is_prefix_of(
                pre_pop.function.chunk.constants@,
            ));
            if nb == 1 {
                lemma_skip_push(pre_pop.instrs@, simple_instr(OpCode::OpPop));
                lemma_skip_all(pre_pop.function.chunk.constants@);
                lemma_seg_split(old(self).instrs@, pre_pop.instrs@, self.instrs@);
                assert(Compiler::emitted(*old(self), *self) =~= dc + seq![Instr::Pop]);
            } else if nb > 1 {
                lemma_skip_push(pre_pop.instrs@, byte_instr(OpCode::OpPopN, nb as u8));
                lemma_skip_all(pre_pop.function.chunk.constants@);
                lemma_seg_split(old(self).instrs@, pre_pop.instrs@, self.instrs@);
                assert(Compiler::emitted(*old(self), *self) =~= dc + seq![
                    Instr::PopN(nb as u8),
                ]);
            } else {
                assert(Compiler::emitted(*old(self), *self) =~= dc);
                assert(Compiler::emitted(*old(self), *self) =~= dc + Seq::<Instr>::empty());
            }
            assert(Compiler::emitted_consts(*old(self), *self) =~= Compiler::emitted_consts(
                entered,
                pre_pop,
            ));
            assert(nb == pre_pop.locals@.len() - old(self).locals@.len());
            assert(segment(dc));
            assert(segment(pre_pop.locals@));
        }
        Ok(())
    }
}

} // verus!
