//! Decoded instructions and the codec between them and chunk bytes.
//!
//! A chunk's code is a contiguous encoding of instructions: one opcode byte,
//! then zero, one or two operand bytes.  [`decode_at`] reads one instruction
//! at a byte offset, [`decode_list`] reads a whole code sequence, and the
//! disassembler on [`Chunk`] is its executable counterpart.  The lemmas at
//! the end let the compiler grow and patch a chunk while keeping track of
//! exactly which instruction list its bytes decode to.

use vstd::prelude::*;

use crate::chunk::Chunk;
use crate::chunk::OpCode;
use crate::chunk::opcode_from;
use crate::chunk::opcode_value;

verus! {

/// One decoded instruction, operands included.  Jump operands are byte
/// displacements: forward for the jumps, backward for `Loop`.
#[derive(Clone, Copy, PartialEq, Eq, Structural, Debug)]
pub enum Instr {
    Constant(u8),
    Add,
    Subtract,
    Multiply,
    Divide,
    Negate,
    Print,
    Return,
    True,
    False,
    Not,
    EqualEqual,
    BangEqual,
    Less,
    LessEqual,
    Greater,
    GreaterEqual,
    DefineGlobal(u8),
    GetGlobal(u8),
    SetGlobal(u8),
    Pop,
    PopN(u8),
    GetLocal(u8),
    SetLocal(u8),
    Jump(u16),
    JumpIfTrue(u16),
    JumpIfFalse(u16),
    Loop(u16),
    Call(u8),
    Eof,
}

/// How many bytes an opcode's instruction occupies: the opcode byte plus
/// its operand bytes.
pub open spec fn opcode_arity(op: OpCode) -> int {
    match op {
        OpCode::OpConstant => 2,
        OpCode::OpDefineGlobal => 2,
        OpCode::OpGetGlobal => 2,
        OpCode::OpSetGlobal => 2,
        OpCode::OpPopN => 2,
        OpCode::OpGetLocal => 2,
        OpCode::OpSetLocal => 2,
        OpCode::OpCall => 2,
        OpCode::OpJump => 3,
        OpCode::OpJumpIfTrue => 3,
        OpCode::OpJumpIfFalse => 3,
        OpCode::OpLoop => 3,
        _ => 1,
    }
}

/// The instruction of an opcode that takes no operand.
pub open spec fn simple_instr(op: OpCode) -> Instr {
    match op {
        OpCode::OpAdd => Instr::Add,
        OpCode::OpSubtract => Instr::Subtract,
        OpCode::OpMultiply => Instr::Multiply,
        OpCode::OpDivide => Instr::Divide,
        OpCode::OpNegate => Instr::Negate,
        OpCode::OpPrint => Instr::Print,
        OpCode::OpReturn => Instr::Return,
        OpCode::OpTrue => Instr::True,
        OpCode::OpFalse => Instr::False,
        OpCode::OpNot => Instr::Not,
        OpCode::OpEqualEqual => Instr::EqualEqual,
        OpCode::OpBangEqual => Instr::BangEqual,
        OpCode::OpLess => Instr::Less,
        OpCode::OpLessEqual => Instr::LessEqual,
        OpCode::OpGreater => Instr::Greater,
        OpCode::OpGreaterEqual => Instr::GreaterEqual,
        OpCode::OpPop => Instr::Pop,
        _ => Instr::Eof,
    }
}

/// The instruction of an opcode that takes one operand byte.
pub open spec fn byte_instr(op: OpCode, operand: u8) -> Instr {
    match op {
        OpCode::OpConstant => Instr::Constant(operand),
        OpCode::OpDefineGlobal => Instr::DefineGlobal(operand),
        OpCode::OpGetGlobal => Instr::GetGlobal(operand),
        OpCode::OpSetGlobal => Instr::SetGlobal(operand),
        OpCode::OpPopN => Instr::PopN(operand),
        OpCode::OpGetLocal => Instr::GetLocal(operand),
        OpCode::OpSetLocal => Instr::SetLocal(operand),
        _ => Instr::Call(operand),
    }
}

/// The instruction of an opcode that takes a 16-bit operand.
pub open spec fn jump_instr(op: OpCode, operand: u16) -> Instr {
    match op {
        OpCode::OpJump => Instr::Jump(operand),
        OpCode::OpJumpIfTrue => Instr::JumpIfTrue(operand),
        OpCode::OpJumpIfFalse => Instr::JumpIfFalse(operand),
        _ => Instr::Loop(operand),
    }
}

/// The opcode of an instruction.
pub open spec fn instr_op(i: Instr) -> OpCode {
    match i {
        Instr::Constant(_) => OpCode::OpConstant,
        Instr::Add => OpCode::OpAdd,
        Instr::Subtract => OpCode::OpSubtract,
        Instr::Multiply => OpCode::OpMultiply,
        Instr::Divide => OpCode::OpDivide,
        Instr::Negate => OpCode::OpNegate,
        Instr::Print => OpCode::OpPrint,
        Instr::Return => OpCode::OpReturn,
        Instr::True => OpCode::OpTrue,
        Instr::False => OpCode::OpFalse,
        Instr::Not => OpCode::OpNot,
        Instr::EqualEqual => OpCode::OpEqualEqual,
        Instr::BangEqual => OpCode::OpBangEqual,
        Instr::Less => OpCode::OpLess,
        Instr::LessEqual => OpCode::OpLessEqual,
        Instr::Greater => OpCode::OpGreater,
        Instr::GreaterEqual => OpCode::OpGreaterEqual,
        Instr::DefineGlobal(_) => OpCode::OpDefineGlobal,
        Instr::GetGlobal(_) => OpCode::OpGetGlobal,
        Instr::SetGlobal(_) => OpCode::OpSetGlobal,
        Instr::Pop => OpCode::OpPop,
        Instr::PopN(_) => OpCode::OpPopN,
        Instr::GetLocal(_) => OpCode::OpGetLocal,
        Instr::SetLocal(_) => OpCode::OpSetLocal,
        Instr::Jump(_) => OpCode::OpJump,
        Instr::JumpIfTrue(_) => OpCode::OpJumpIfTrue,
        Instr::JumpIfFalse(_) => OpCode::OpJumpIfFalse,
        Instr::Loop(_) => OpCode::OpLoop,
        Instr::Call(_) => OpCode::OpCall,
        Instr::Eof => OpCode::OpEof,
    }
}

/// How many bytes an instruction occupies.
pub open spec fn instr_size(i: Instr) -> int {
    opcode_arity(instr_op(i))
}

/// The bytes an instruction is encoded as.
pub open spec fn encode_instr(i: Instr) -> Seq<u8> {
    match i {
        Instr::Constant(a) => seq![opcode_value(instr_op(i)), a],
        Instr::DefineGlobal(a) => seq![opcode_value(instr_op(i)), a],
        Instr::GetGlobal(a) => seq![opcode_value(instr_op(i)), a],
        Instr::SetGlobal(a) => seq![opcode_value(instr_op(i)), a],
        Instr::PopN(a) => seq![opcode_value(instr_op(i)), a],
        Instr::GetLocal(a) => seq![opcode_value(instr_op(i)), a],
        Instr::SetLocal(a) => seq![opcode_value(instr_op(i)), a],
        Instr::Call(a) => seq![opcode_value(instr_op(i)), a],
        Instr::Jump(d) => seq![opcode_value(instr_op(i)), (d / 256) as u8, (d % 256) as u8],
        Instr::JumpIfTrue(d) => seq![opcode_value(instr_op(i)), (d / 256) as u8, (d % 256) as u8],
        Instr::JumpIfFalse(d) => seq![opcode_value(instr_op(i)), (d / 256) as u8, (d % 256) as u8],
        Instr::Loop(d) => seq![opcode_value(instr_op(i)), (d / 256) as u8, (d % 256) as u8],
        _ => seq![opcode_value(instr_op(i))],
    }
}

/// The instruction encoded at byte offset `p`, or `None` when the byte
/// there is no opcode or its operands run past the end.
pub open spec fn decode_at(code: Seq<u8>, p: int) -> Option<Instr> {
    if 0 <= p < code.len() {
        match opcode_from(code[p]) {
            Some(op) => {
                if opcode_arity(op) == 1 {
                    Some(simple_instr(op))
                } else if opcode_arity(op) == 2 {
                    if p + 2 <= code.len() {
                        Some(byte_instr(op, code[p + 1]))
                    } else {
                        None
                    }
                } else {
                    if p + 3 <= code.len() {
                        Some(
                            jump_instr(
                                op,
                                ((code[p + 1] as int) * 256 + (code[p + 2] as int)) as u16,
                            ),
                        )
                    } else {
                        None
                    }
                }
            },
            None => None,
        }
    } else {
        None
    }
}

/// The instruction list encoded from byte offset `p` to the end, or `None`
/// when the bytes are not a whole number of instructions.
pub open spec fn decode_list(code: Seq<u8>, p: int) -> Option<Seq<Instr>>
    decreases code.len() - p,
{
    if p == code.len() {
        Some(Seq::<Instr>::empty())
    } else {
        match decode_at(code, p) {
            Some(i) => match decode_list(code, p + instr_size(i)) {
                Some(rest) => Some(seq![i] + rest),
                None => None,
            },
            None => None,
        }
    }
}

/// The byte offset of instruction `k` within the list: the sizes of the
/// instructions before it.
pub open spec fn offset_of(l: Seq<Instr>, k: int) -> int
    decreases k,
{
    if k <= 0 {
        0
    } else {
        offset_of(l, k - 1) + instr_size(l[k - 1])
    }
}

/// Every instruction occupies one, two or three bytes.
pub proof fn lemma_instr_size_bounds(i: Instr)
    ensures
        1 <= instr_size(i) <= 3,
        encode_instr(i).len() == instr_size(i),
{
}

/// Offsets grow with the index; the offset of a later instruction exceeds
/// the offset of an earlier one by at least the earlier one's size.
pub proof fn lemma_offset_of_monotone(l: Seq<Instr>, j: int, k: int)
    requires
        0 <= j <= k,
    ensures
        offset_of(l, j) <= offset_of(l, k),
        j < k ==> offset_of(l, j) + instr_size(l[j]) <= offset_of(l, k),
    decreases k - j,
{
    if j < k {
        lemma_instr_size_bounds(l[k - 1]);
        lemma_offset_of_monotone(l, j, k - 1);
        if j < k - 1 {
        } else {
        }
    }
}

/// The offset of an instruction does not depend on the instructions at or
/// after it.
pub proof fn lemma_offset_of_push(l: Seq<Instr>, i: Instr, k: int)
    requires
        0 <= k <= l.len(),
    ensures
        offset_of(l.push(i), k) == offset_of(l, k),
    decreases k,
{
    if k > 0 {
        lemma_offset_of_push(l, i, k - 1);
    }
}

/// Updating instruction `m` to one of the same size moves no offset.
pub proof fn lemma_offset_of_update(l: Seq<Instr>, m: int, j: Instr, k: int)
    requires
        0 <= m < l.len(),
        instr_size(j) == instr_size(l[m]),
        0 <= k <= l.len(),
    ensures
        offset_of(l.update(m, j), k) == offset_of(l, k),
    decreases k,
{
    if k > 0 {
        lemma_offset_of_update(l, m, j, k - 1);
    }
}

/// A decoded list accounts for the code bytes from `p` to the end.
pub proof fn lemma_decode_list_total(code: Seq<u8>, p: int, l: Seq<Instr>)
    requires
        decode_list(code, p) == Some(l),
    ensures
        p + offset_of(l, l.len() as int) == code.len(),
        0 <= p <= code.len(),
    decreases code.len() - p,
{
    if p == code.len() {
        assert(offset_of(l, 0) == 0);
    } else {
        match decode_at(code, p) {
            Some(i) => {
                lemma_instr_size_bounds(i);
                let rest = decode_list(code, p + instr_size(i)).unwrap();
                lemma_decode_list_total(code, p + instr_size(i), rest);
                assert(l == seq![i] + rest);
                lemma_offset_shift(rest, i, rest.len() as int);
            },
            None => {},
        }
    }
}

/// Prepending one instruction shifts every offset by its size.
proof fn lemma_offset_shift(l: Seq<Instr>, i: Instr, k: int)
    requires
        0 <= k <= l.len(),
    ensures
        offset_of(seq![i] + l, k + 1) == instr_size(i) + offset_of(l, k),
    decreases k,
{
    let s = seq![i] + l;
    if k == 0 {
        assert(s[0] == i);
        assert(offset_of(s, 1) == offset_of(s, 0) + instr_size(s[0]));
    } else {
        lemma_offset_shift(l, i, k - 1);
        assert(s[k] == l[k - 1]);
        assert(offset_of(s, k + 1) == offset_of(s, k) + instr_size(s[k]));
        assert(offset_of(l, k) == offset_of(l, k - 1) + instr_size(l[k - 1]));
    }
}

/// Decoding one instruction reads only the bytes it occupies.
proof fn lemma_decode_at_local(code1: Seq<u8>, code2: Seq<u8>, p: int)
    requires
        code1.len() == code2.len(),
        0 <= p < code1.len(),
        forall|q: int| p <= q < code1.len() ==> code1[q] == code2[q],
    ensures
        decode_at(code1, p) == decode_at(code2, p),
{
}

/// Decoding from `p` reads only the bytes from `p` on.
proof fn lemma_decode_list_local(code1: Seq<u8>, code2: Seq<u8>, p: int)
    requires
        code1.len() == code2.len(),
        0 <= p <= code1.len(),
        forall|q: int| p <= q < code1.len() ==> code1[q] == code2[q],
    ensures
        decode_list(code1, p) == decode_list(code2, p),
    decreases code1.len() - p,
{
    if p == code1.len() {
    } else {
        lemma_decode_at_local(code1, code2, p);
        match decode_at(code1, p) {
            Some(i) => {
                lemma_instr_size_bounds(i);
                if p + instr_size(i) <= code1.len() {
                    lemma_decode_list_local(code1, code2, p + instr_size(i));
                } else {
                    lemma_decode_list_oob(code1, p + instr_size(i));
                    lemma_decode_list_oob(code2, p + instr_size(i));
                }
            },
            None => {},
        }
    }
}

/// Decoding from past the end fails (unless exactly at the end).
proof fn lemma_decode_list_oob(code: Seq<u8>, p: int)
    requires
        p > code.len(),
    ensures
        decode_list(code, p) is None,
{
}

/// The encoding of an instruction decodes to that instruction, whatever
/// bytes follow it.
proof fn lemma_decode_at_encoding(code: Seq<u8>, p: int, i: Instr)
    requires
        0 <= p,
        p + instr_size(i) <= code.len(),
        forall|q: int| 0 <= q < instr_size(i) ==> code[p + q] == encode_instr(i)[q],
    ensures
        decode_at(code, p) == Some(i),
{
    lemma_instr_size_bounds(i);
    let op = instr_op(i);
    crate::chunk::lemma_opcode_roundtrip(op);
    assert(code[p] == encode_instr(i)[0]);
    assert(encode_instr(i)[0] == opcode_value(op));
    if opcode_arity(op) == 2 {
        assert(code[p + 1] == encode_instr(i)[1]);
        assert(byte_instr(op, encode_instr(i)[1]) == i);
    } else if opcode_arity(op) == 3 {
        assert(code[p + 1] == encode_instr(i)[1]);
        assert(code[p + 2] == encode_instr(i)[2]);
        let d = match i {
            Instr::Jump(d) => d,
            Instr::JumpIfTrue(d) => d,
            Instr::JumpIfFalse(d) => d,
            Instr::Loop(d) => d,
            _ => 0u16,
        };
        assert(encode_instr(i)[1] == (d / 256) as u8);
        assert(encode_instr(i)[2] == (d % 256) as u8);
        assert(d / 256 < 256) by {
            assert(d <= 65535);
        }
        assert(((d / 256) as int) * 256 + ((d % 256) as int) == d as int) by {
            assert(d == 256 * (d / 256) + d % 256) by {
                vstd::arithmetic::div_mod::lemma_fundamental_div_mod(d as int, 256);
            }
        }
        assert(jump_instr(op, ((code[p + 1] as int) * 256 + (code[p + 2] as int)) as u16) == i);
    } else {
        assert(simple_instr(op) == i);
    }
}

/// Appending the encoding of one instruction to code that decodes to `l`
/// gives code that decodes to `l` with that instruction at the end.
pub proof fn lemma_decode_append(code: Seq<u8>, p: int, l: Seq<Instr>, i: Instr)
    requires
        decode_list(code, p) == Some(l),
    ensures
        decode_list(code + encode_instr(i), p) == Some(l.push(i)),
    decreases code.len() - p,
{
    lemma_decode_list_total(code, p, l);
    lemma_instr_size_bounds(i);
    let code2 = code + encode_instr(i);
    if p == code.len() {
        assert(forall|q: int| 0 <= q < instr_size(i) ==> code2[p + q] == encode_instr(i)[q]);
        lemma_decode_at_encoding(code2, p, i);
        assert(decode_list(code2, p + instr_size(i)) == Some(Seq::<Instr>::empty()));
        assert(seq![i] + Seq::<Instr>::empty() =~= l.push(i));
    } else {
        let first = decode_at(code, p).unwrap();
        lemma_instr_size_bounds(first);
        assert(decode_at(code2, p) == decode_at(code, p)) by {
            lemma_decode_at_within(code, code2, p, first);
        }
        let rest = decode_list(code, p + instr_size(first)).unwrap();
        lemma_decode_append(code, p + instr_size(first), rest, i);
        assert(l == seq![first] + rest);
        assert(seq![first] + rest.push(i) =~= (seq![first] + rest).push(i));
    }
}

/// An instruction decoded inside `code` decodes the same in an extension.
proof fn lemma_decode_at_within(code: Seq<u8>, code2: Seq<u8>, p: int, i: Instr)
    requires
        decode_at(code, p) == Some(i),
        code2.len() >= code.len(),
        forall|q: int| 0 <= q < code.len() ==> code2[q] == code[q],
    ensures
        decode_at(code2, p) == Some(i),
{
    lemma_instr_size_bounds(i);
}

/// Replacing the operand of the jump-shaped instruction `k` rewrites its
/// two operand bytes and nothing else; the code then decodes to the list
/// with that one instruction updated.
pub proof fn lemma_decode_patch(code: Seq<u8>, p: int, l: Seq<Instr>, k: int, j: Instr)
    requires
        decode_list(code, p) == Some(l),
        0 <= k < l.len(),
        instr_op(j) == instr_op(l[k]),
        opcode_arity(instr_op(j)) == 3,
    ensures
        decode_list(
            code.update(p + offset_of(l, k) + 1, encode_instr(j)[1]).update(
                p + offset_of(l, k) + 2,
                encode_instr(j)[2],
            ),
            p,
        ) == Some(l.update(k, j)),
    decreases k,
{
    lemma_decode_list_total(code, p, l);
    lemma_instr_size_bounds(j);
    lemma_instr_size_bounds(l[k]);
    lemma_offset_of_monotone(l, k, l.len() as int);
    let q = p + offset_of(l, k);
    let code2 = code.update(q + 1, encode_instr(j)[1]).update(q + 2, encode_instr(j)[2]);
    let first = decode_at(code, p).unwrap();
    lemma_instr_size_bounds(first);
    let rest = decode_list(code, p + instr_size(first)).unwrap();
    assert(l == seq![first] + rest);
    if k == 0 {
        assert(offset_of(l, 0) == 0);
        assert(instr_size(first) == 3);
        assert(code2[p] == code[p]);
        assert(encode_instr(j)[0] == opcode_value(instr_op(j)));
        assert(code[p] == opcode_value(instr_op(first))) by {
            crate::chunk::lemma_opcode_roundtrip(instr_op(first));
            lemma_opcode_from_injective(code[p], instr_op(first));
        }
        assert(forall|qq: int| 0 <= qq < 3 ==> code2[p + qq] == encode_instr(j)[qq]);
        lemma_decode_at_encoding(code2, p, j);
        lemma_decode_list_local(code, code2, p + 3);
        assert(seq![j] + rest =~= l.update(0, j));
    } else {
        lemma_offset_of_monotone(l, 0, k);
        assert(offset_of(l, 0) == 0);
        assert(q + 1 >= p + instr_size(first)) by {
            lemma_offset_of_monotone(l, 1, k);
            assert(offset_of(l, 1) == instr_size(first)) by {
                assert(l[0] == first);
            }
        }
        assert(decode_at(code2, p) == decode_at(code, p)) by {
            lemma_decode_at_local_front(code, code2, p, instr_size(first));
        }
        lemma_offset_shift_all(rest, first, k - 1);
        lemma_decode_patch(code, p + instr_size(first), rest, k - 1, j);
        assert(code.update(q + 1, encode_instr(j)[1]).update(q + 2, encode_instr(j)[2])
            == code2);
        assert(p + instr_size(first) + offset_of(rest, k - 1) == p + offset_of(l, k));
        assert(seq![first] + rest.update(k - 1, j) =~= l.update(k, j));
    }
}

/// Two codes of one length that agree on an instruction's own bytes and are
/// long enough decode that instruction alike.
proof fn lemma_decode_at_local_front(code: Seq<u8>, code2: Seq<u8>, p: int, size: int)
    requires
        code.len() == code2.len(),
        0 <= p,
        p + size <= code.len(),
        decode_at(code, p) is Some,
        instr_size(decode_at(code, p)->0) == size,
        forall|q: int| p <= q < p + size ==> code2[q] == code[q],
    ensures
        decode_at(code2, p) == decode_at(code, p),
{
}

/// The offset of instruction `k+1` in a list with `first` prepended.
proof fn lemma_offset_shift_all(l: Seq<Instr>, first: Instr, k: int)
    requires
        0 <= k <= l.len(),
    ensures
        offset_of(seq![first] + l, k + 1) == instr_size(first) + offset_of(l, k),
{
    lemma_offset_shift(l, first, k);
}

/// A byte decodes to at most one opcode.
proof fn lemma_opcode_from_injective(b: u8, op: OpCode)
    requires
        opcode_from(b) == Some(op),
    ensures
        b == opcode_value(op),
{
}

/// The total byte size of an instruction list.
pub open spec fn total_size(l: Seq<Instr>) -> int {
    offset_of(l, l.len() as int)
}

/// Whether one instruction's constant operand, if it has one, lies within a
/// pool of `n` constants.
pub open spec fn instr_consts_ok(i: Instr, n: int) -> bool {
    match i {
        Instr::Constant(a) => (a as int) < n,
        Instr::DefineGlobal(a) => (a as int) < n,
        Instr::GetGlobal(a) => (a as int) < n,
        Instr::SetGlobal(a) => (a as int) < n,
        _ => true,
    }
}

/// Every constant operand in the list indexes within `n` constants.
pub open spec fn consts_ok(l: Seq<Instr>, n: int) -> bool {
    forall|k: int| 0 <= k < l.len() ==> instr_consts_ok(#[trigger] l[k], n)
}

/// Whether the jump or loop at index `k` lands within `[0, bound]`: the
/// forward jumps displace the offset just past their operand by `d` ahead,
/// `Loop` by `d` back.  A backward target is always strictly within the
/// code; a forward target may equal `bound` while compilation is still
/// appending code.
pub open spec fn jump_ok(l: Seq<Instr>, k: int, bound: int) -> bool {
    match l[k] {
        Instr::Jump(d) => offset_of(l, k) + 3 + d <= bound,
        Instr::JumpIfTrue(d) => offset_of(l, k) + 3 + d <= bound,
        Instr::JumpIfFalse(d) => offset_of(l, k) + 3 + d <= bound,
        Instr::Loop(d) => (d as int) <= offset_of(l, k) + 3 && offset_of(l, k) + 3 - d < bound,
        _ => true,
    }
}

/// Whether the jump or loop at index `k` lands within `[0, bound)`.
pub open spec fn jump_strict_ok(l: Seq<Instr>, k: int, bound: int) -> bool {
    match l[k] {
        Instr::Jump(d) => offset_of(l, k) + 3 + d < bound,
        Instr::JumpIfTrue(d) => offset_of(l, k) + 3 + d < bound,
        Instr::JumpIfFalse(d) => offset_of(l, k) + 3 + d < bound,
        Instr::Loop(d) => (d as int) <= offset_of(l, k) + 3 && offset_of(l, k) + 3 - d < bound,
        _ => true,
    }
}

/// Every jump and loop in the list lands within `[0, bound]`.
pub open spec fn jumps_within(l: Seq<Instr>, bound: int) -> bool {
    forall|k: int| 0 <= k < l.len() ==> #[trigger] jump_ok(l, k, bound)
}

/// Every jump and loop in the list lands within `[0, bound)`: no executed
/// jump can move the instruction pointer out of the code.
pub open spec fn jumps_strict(l: Seq<Instr>, bound: int) -> bool {
    forall|k: int| 0 <= k < l.len() ==> #[trigger] jump_strict_ok(l, k, bound)
}

/// Pushing an instruction grows the total size by that instruction's size.
pub proof fn lemma_total_push(l: Seq<Instr>, i: Instr)
    ensures
        total_size(l.push(i)) == total_size(l) + instr_size(i),
{
    lemma_offset_of_push(l, i, l.len() as int);
    assert(l.push(i)[l.len() as int] == i);
}

/// Constant bounds survive pushing an instruction whose own operand is in
/// bounds, the pool having possibly grown.
pub proof fn lemma_consts_push(l: Seq<Instr>, i: Instr, n1: int, n2: int)
    requires
        consts_ok(l, n1),
        n1 <= n2,
        instr_consts_ok(i, n2),
    ensures
        consts_ok(l.push(i), n2),
{
    assert forall|k: int| 0 <= k < l.push(i).len() implies instr_consts_ok(
        #[trigger] l.push(i)[k],
        n2,
    ) by {
        if k < l.len() {
            assert(l.push(i)[k] == l[k]);
            assert(instr_consts_ok(l[k], n1));
        }
    }
}

/// Constant bounds survive updating one instruction to one whose operand is
/// in bounds.
pub proof fn lemma_consts_update(l: Seq<Instr>, m: int, j: Instr, n: int)
    requires
        consts_ok(l, n),
        0 <= m < l.len(),
        instr_consts_ok(j, n),
    ensures
        consts_ok(l.update(m, j), n),
{
    assert forall|k: int| 0 <= k < l.len() implies instr_consts_ok(
        #[trigger] l.update(m, j)[k],
        n,
    ) by {
        if k != m {
            assert(l.update(m, j)[k] == l[k]);
        }
    }
}

/// Jump bounds survive pushing an instruction that itself lands in bounds.
pub proof fn lemma_jumps_push(l: Seq<Instr>, i: Instr)
    requires
        jumps_within(l, total_size(l)),
        jump_ok(l.push(i), l.len() as int, total_size(l) + instr_size(i)),
    ensures
        jumps_within(l.push(i), total_size(l.push(i))),
{
    lemma_total_push(l, i);
    lemma_instr_size_bounds(i);
    assert forall|k: int| 0 <= k < l.push(i).len() implies #[trigger] jump_ok(
        l.push(i),
        k,
        total_size(l.push(i)),
    ) by {
        lemma_offset_of_push(l, i, k);
        if k < l.len() {
            assert(l.push(i)[k] == l[k]);
            assert(jump_ok(l, k, total_size(l)));
        }
    }
}

/// Once the final instruction is appended after every patch, the jumps land
/// strictly within the code: a target that could equal the old end is now
/// below the new end.
pub proof fn lemma_jumps_strict_push(l: Seq<Instr>, i: Instr)
    requires
        jumps_within(l, total_size(l)),
        opcode_arity(instr_op(i)) < 3,
    ensures
        jumps_strict(l.push(i), total_size(l.push(i))),
        jumps_within(l.push(i), total_size(l.push(i))),
{
    lemma_total_push(l, i);
    lemma_instr_size_bounds(i);
    assert forall|k: int| 0 <= k < l.push(i).len() implies #[trigger] jump_strict_ok(
        l.push(i),
        k,
        total_size(l.push(i)),
    ) by {
        lemma_offset_of_push(l, i, k);
        if k < l.len() {
            assert(l.push(i)[k] == l[k]);
            assert(jump_ok(l, k, total_size(l)));
        }
    }
    assert forall|k: int| 0 <= k < l.push(i).len() implies #[trigger] jump_ok(
        l.push(i),
        k,
        total_size(l.push(i)),
    ) by {
        assert(jump_strict_ok(l.push(i), k, total_size(l.push(i))));
    }
}

/// Strict jump bounds survive appending more instructions that themselves
/// land in bounds.
pub proof fn lemma_jumps_strict_push_more(l: Seq<Instr>, i: Instr)
    requires
        jumps_strict(l, total_size(l)),
        opcode_arity(instr_op(i)) < 3,
    ensures
        jumps_strict(l.push(i), total_size(l.push(i))),
        jumps_within(l.push(i), total_size(l.push(i))),
{
    assert forall|k: int| 0 <= k < l.len() implies #[trigger] jump_ok(l, k, total_size(l)) by {
        assert(jump_strict_ok(l, k, total_size(l)));
    }
    lemma_jumps_strict_push(l, i);
}

/// Jump bounds survive patching one jump to a target at most the current
/// end, with every offset unmoved.
pub proof fn lemma_jumps_update(l: Seq<Instr>, m: int, j: Instr)
    requires
        jumps_within(l, total_size(l)),
        0 <= m < l.len(),
        instr_size(j) == instr_size(l[m]),
        jump_ok(l.update(m, j), m, total_size(l)),
    ensures
        jumps_within(l.update(m, j), total_size(l.update(m, j))),
        total_size(l.update(m, j)) == total_size(l),
{
    lemma_offset_of_update(l, m, j, l.len() as int);
    assert(total_size(l.update(m, j)) == total_size(l));
    assert forall|k: int| 0 <= k < l.len() implies #[trigger] jump_ok(
        l.update(m, j),
        k,
        total_size(l),
    ) by {
        lemma_offset_of_update(l, m, j, k);
        if k != m {
            assert(l.update(m, j)[k] == l[k]);
            assert(jump_ok(l, k, total_size(l)));
        }
    }
}

/// In a chunk whose bytes decode to an instruction list — every compiled
/// chunk's do — the bytes at offset zero decode to the list's first
/// instruction: a machine starting such a chunk never trips on its
/// encoding.
pub proof fn lemma_first_instruction_decodes(code: Seq<u8>, l: Seq<Instr>)
    requires
        decode_list(code, 0) == Some(l),
        code.len() > 0,
    ensures
        l.len() > 0,
        decode_at(code, 0) == Some(l[0]),
{
    let i = decode_at(code, 0).unwrap();
    let rest = decode_list(code, instr_size(i)).unwrap();
    assert(l == seq![i] + rest);
    assert(l[0] == i);
}

/// An offset computed against a prefix is the same against the whole.
pub proof fn lemma_offset_of_prefix(l1: Seq<Instr>, l2: Seq<Instr>, k: int)
    requires
        l1.is_prefix_of(l2),
        0 <= k <= l1.len(),
    ensures
        offset_of(l2, k) == offset_of(l1, k),
    decreases k,
{
    if k > 0 {
        lemma_offset_of_prefix(l1, l2, k - 1);
        assert(l2[k - 1] == l1[k - 1]) by {
            assert(l2.take(l1.len() as int) == l1);
            assert(l2.take(l1.len() as int)[k - 1] == l2[k - 1]);
        }
    }
}

impl Chunk {
    /// Decodes the instruction at `offset` and returns it with the offset
    /// just past it, or `None` when the bytes there are not an instruction.
    pub fn disassemble_instruction(&self, offset: usize) -> (r: Option<(Instr, usize)>)
        ensures
            match r {
                Some(p) => decode_at(self.code@, offset as int) == Some(p.0) && p.1 == offset
                    + instr_size(p.0),
                None => decode_at(self.code@, offset as int) is None,
            },
    {
        if offset >= self.code.len() {
            return None;
        }
        let b = self.read_byte(offset);
        let op = match OpCode::try_from(b) {
            Ok(op) => op,
            Err(()) => {
                return None;
            },
        };
        match op {
            OpCode::OpAdd => Some((Instr::Add, offset + 1)),
            OpCode::OpSubtract => Some((Instr::Subtract, offset + 1)),
            OpCode::OpMultiply => Some((Instr::Multiply, offset + 1)),
            OpCode::OpDivide => Some((Instr::Divide, offset + 1)),
            OpCode::OpNegate => Some((Instr::Negate, offset + 1)),
            OpCode::OpPrint => Some((Instr::Print, offset + 1)),
            OpCode::OpReturn => Some((Instr::Return, offset + 1)),
            OpCode::OpTrue => Some((Instr::True, offset + 1)),
            OpCode::OpFalse => Some((Instr::False, offset + 1)),
            OpCode::OpNot => Some((Instr::Not, offset + 1)),
            OpCode::OpEqualEqual => Some((Instr::EqualEqual, offset + 1)),
            OpCode::OpBangEqual => Some((Instr::BangEqual, offset + 1)),
            OpCode::OpLess => Some((Instr::Less, offset + 1)),
            OpCode::OpLessEqual => Some((Instr::LessEqual, offset + 1)),
            OpCode::OpGreater => Some((Instr::Greater, offset + 1)),
            OpCode::OpGreaterEqual => Some((Instr::GreaterEqual, offset + 1)),
            OpCode::OpPop => Some((Instr::Pop, offset + 1)),
            OpCode::OpEof => Some((Instr::Eof, offset + 1)),
            OpCode::OpConstant => match self.operand_byte(offset) {
                Some(a) => Some((Instr::Constant(a), offset + 2)),
                None => None,
            },
            OpCode::OpDefineGlobal => match self.operand_byte(offset) {
                Some(a) => Some((Instr::DefineGlobal(a), offset + 2)),
                None => None,
            },
            OpCode::OpGetGlobal => match self.operand_byte(offset) {
                Some(a) => Some((Instr::GetGlobal(a), offset + 2)),
                None => None,
            },
            OpCode::OpSetGlobal => match self.operand_byte(offset) {
                Some(a) => Some((Instr::SetGlobal(a), offset + 2)),
                None => None,
            },
            OpCode::OpPopN => match self.operand_byte(offset) {
                Some(a) => Some((Instr::PopN(a), offset + 2)),
                None => None,
            },
            OpCode::OpGetLocal => match self.operand_byte(offset) {
                Some(a) => Some((Instr::GetLocal(a), offset + 2)),
                None => None,
            },
            OpCode::OpSetLocal => match self.operand_byte(offset) {
                Some(a) => Some((Instr::SetLocal(a), offset + 2)),
                None => None,
            },
            OpCode::OpCall => match self.operand_byte(offset) {
                Some(a) => Some((Instr::Call(a), offset + 2)),
                None => None,
            },
            OpCode::OpJump => match self.operand_short(offset) {
                Some(d) => Some((Instr::Jump(d), offset + 3)),
                None => None,
            },
            OpCode::OpJumpIfTrue => match self.operand_short(offset) {
                Some(d) => Some((Instr::JumpIfTrue(d), offset + 3)),
                None => None,
            },
            OpCode::OpJumpIfFalse => match self.operand_short(offset) {
                Some(d) => Some((Instr::JumpIfFalse(d), offset + 3)),
                None => None,
            },
            OpCode::OpLoop => match self.operand_short(offset) {
                Some(d) => Some((Instr::Loop(d), offset + 3)),
                None => None,
            },
        }
    }

    /// The one operand byte of the instruction at `offset`, if present.
    fn operand_byte(&self, offset: usize) -> (r: Option<u8>)
        requires
            offset < self.code@.len(),
        ensures
            match r {
                Some(a) => offset + 2 <= self.code@.len() && a == self.code@[offset + 1],
                None => offset + 2 > self.code@.len(),
            },
    {
        if self.code.len() - offset >= 2 {
            Some(self.read_byte(offset + 1))
        } else {
            None
        }
    }

    /// The 16-bit big-endian operand of the instruction at `offset`.
    fn operand_short(&self, offset: usize) -> (r: Option<u16>)
        requires
            offset < self.code@.len(),
        ensures
            match r {
                Some(d) => offset + 3 <= self.code@.len() && d as int == (self.code@[offset + 1]
                    as int) * 256 + (self.code@[offset + 2] as int),
                None => offset + 3 > self.code@.len(),
            },
    {
        if self.code.len() - offset >= 3 {
            let hi = self.read_byte(offset + 1);
            let lo = self.read_byte(offset + 2);
            Some((hi as u16) * 256 + (lo as u16))
        } else {
            None
        }
    }

    /// Decodes the whole chunk, or `None` when its bytes are not a whole
    /// number of instructions.  On every chunk the compiler emits this
    /// recovers exactly the instruction list the compiler intended.
    pub fn disassemble(&self) -> (r: Option<Vec<Instr>>)
        ensures
            match r {
                Some(v) => decode_list(self.code@, 0) == Some(v@),
                None => decode_list(self.code@, 0) is None,
            },
    {
        let mut acc: Vec<Instr> = Vec::new();
        let mut offset: usize = 0;
        proof {
            assert(acc@ + decode_list(self.code@, 0).unwrap_or(Seq::empty()) =~= decode_list(
                self.code@,
                0,
            ).unwrap_or(Seq::empty()));
        }
        while offset < self.code.len()
            invariant
                offset <= self.code@.len(),
                match decode_list(self.code@, offset as int) {
                    Some(rest) => decode_list(self.code@, 0) == Some(acc@ + rest),
                    None => decode_list(self.code@, 0) is None,
                },
            decreases self.code@.len() - offset,
        {
            match self.disassemble_instruction(offset) {
                Some((i, next)) => {
                    proof {
                        lemma_instr_size_bounds(i);
                        if decode_list(self.code@, next as int) is Some {
                            let rest2 = decode_list(self.code@, next as int).unwrap();
                            assert(decode_list(self.code@, offset as int) == Some(
                                seq![i] + rest2,
                            ));
                            assert(acc@ + (seq![i] + rest2) =~= acc@.push(i) + rest2);
                        }
                    }
                    acc.push(i);
                    offset = next;
                },
                None => {
                    return None;
                },
            }
        }
        proof {
            assert(decode_list(self.code@, offset as int) == Some(Seq::<Instr>::empty()));
            assert(acc@ + Seq::<Instr>::empty() =~= acc@);
        }
        Some(acc)
    }
}

} // verus!
