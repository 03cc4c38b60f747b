//! Chunks: the byte-encoded body of one compiled function.
//!
//! A chunk holds the code bytes (opcodes interleaved with their operand
//! bytes), the constant pool the code indexes with single-byte operands, and
//! a compressed offset-to-line table used to attribute runtime errors to
//! source lines.

use vstd::prelude::*;

use crate::value::Value;

verus! {

/// The instruction set.  Every opcode is one byte; `CONSTANT`, the global
/// and local accesses, `POPN` and `CALL` carry one operand byte, the jumps
/// and `LOOP` carry a 16-bit big-endian operand.
#[derive(Clone, Copy, PartialEq, Eq, Structural, Debug)]
pub enum OpCode {
    OpConstant,
    OpAdd,
    OpSubtract,
    OpMultiply,
    OpDivide,
    OpNegate,
    OpPrint,
    OpReturn,
    OpTrue,
    OpFalse,
    OpNot,
    OpEqualEqual,
    OpBangEqual,
    OpLess,
    OpLessEqual,
    OpGreater,
    OpGreaterEqual,
    OpDefineGlobal,
    OpGetGlobal,
    OpSetGlobal,
    OpPop,
    OpPopN,
    OpGetLocal,
    OpSetLocal,
    OpJump,
    OpJumpIfTrue,
    OpJumpIfFalse,
    OpLoop,
    OpCall,
    OpEof,
}

/// The byte that encodes each opcode.
pub open spec fn opcode_value(op: OpCode) -> u8 {
    match op {
        OpCode::OpConstant => 0,
        OpCode::OpAdd => 1,
        OpCode::OpSubtract => 2,
        OpCode::OpMultiply => 3,
        OpCode::OpDivide => 4,
        OpCode::OpNegate => 5,
        OpCode::OpPrint => 6,
        OpCode::OpReturn => 7,
        OpCode::OpTrue => 8,
        OpCode::OpFalse => 9,
        OpCode::OpNot => 10,
        OpCode::OpEqualEqual => 11,
        OpCode::OpBangEqual => 12,
        OpCode::OpLess => 13,
        OpCode::OpLessEqual => 14,
        OpCode::OpGreater => 15,
        OpCode::OpGreaterEqual => 16,
        OpCode::OpDefineGlobal => 17,
        OpCode::OpGetGlobal => 18,
        OpCode::OpSetGlobal => 19,
        OpCode::OpPop => 20,
        OpCode::OpPopN => 21,
        OpCode::OpGetLocal => 22,
        OpCode::OpSetLocal => 23,
        OpCode::OpJump => 24,
        OpCode::OpJumpIfTrue => 25,
        OpCode::OpJumpIfFalse => 26,
        OpCode::OpLoop => 27,
        OpCode::OpCall => 28,
        OpCode::OpEof => 29,
    }
}

/// The opcode a byte encodes, if any.
pub open spec fn opcode_from(b: u8) -> Option<OpCode> {
    if b == 0 {
        Some(OpCode::OpConstant)
    } else if b == 1 {
        Some(OpCode::OpAdd)
    } else if b == 2 {
        Some(OpCode::OpSubtract)
    } else if b == 3 {
        Some(OpCode::OpMultiply)
    } else if b == 4 {
        Some(OpCode::OpDivide)
    } else if b == 5 {
        Some(OpCode::OpNegate)
    } else if b == 6 {
        Some(OpCode::OpPrint)
    } else if b == 7 {
        Some(OpCode::OpReturn)
    } else if b == 8 {
        Some(OpCode::OpTrue)
    } else if b == 9 {
        Some(OpCode::OpFalse)
    } else if b == 10 {
        Some(OpCode::OpNot)
    } else if b == 11 {
        Some(OpCode::OpEqualEqual)
    } else if b == 12 {
        Some(OpCode::OpBangEqual)
    } else if b == 13 {
        Some(OpCode::OpLess)
    } else if b == 14 {
        Some(OpCode::OpLessEqual)
    } else if b == 15 {
        Some(OpCode::OpGreater)
    } else if b == 16 {
        Some(OpCode::OpGreaterEqual)
    } else if b == 17 {
        Some(OpCode::OpDefineGlobal)
    } else if b == 18 {
        Some(OpCode::OpGetGlobal)
    } else if b == 19 {
        Some(OpCode::OpSetGlobal)
    } else if b == 20 {
        Some(OpCode::OpPop)
    } else if b == 21 {
        Some(OpCode::OpPopN)
    } else if b == 22 {
        Some(OpCode::OpGetLocal)
    } else if b == 23 {
        Some(OpCode::OpSetLocal)
    } else if b == 24 {
        Some(OpCode::OpJump)
    } else if b == 25 {
        Some(OpCode::OpJumpIfTrue)
    } else if b == 26 {
        Some(OpCode::OpJumpIfFalse)
    } else if b == 27 {
        Some(OpCode::OpLoop)
    } else if b == 28 {
        Some(OpCode::OpCall)
    } else if b == 29 {
        Some(OpCode::OpEof)
    } else {
        None
    }
}

/// Decoding the byte of an opcode gives that opcode back.
pub proof fn lemma_opcode_roundtrip(op: OpCode)
    ensures
        opcode_from(opcode_value(op)) == Some(op),
{
}

impl OpCode {
    /// The byte this opcode is encoded as.
    pub fn as_byte(self) -> (r: u8)
        ensures
            r == opcode_value(self),
    {
        match self {
            OpCode::OpConstant => 0,
            OpCode::OpAdd => 1,
            OpCode::OpSubtract => 2,
            OpCode::OpMultiply => 3,
            OpCode::OpDivide => 4,
            OpCode::OpNegate => 5,
            OpCode::OpPrint => 6,
            OpCode::OpReturn => 7,
            OpCode::OpTrue => 8,
            OpCode::OpFalse => 9,
            OpCode::OpNot => 10,
            OpCode::OpEqualEqual => 11,
            OpCode::OpBangEqual => 12,
            OpCode::OpLess => 13,
            OpCode::OpLessEqual => 14,
            OpCode::OpGreater => 15,
            OpCode::OpGreaterEqual => 16,
            OpCode::OpDefineGlobal => 17,
            OpCode::OpGetGlobal => 18,
            OpCode::OpSetGlobal => 19,
            OpCode::OpPop => 20,
            OpCode::OpPopN => 21,
            OpCode::OpGetLocal => 22,
            OpCode::OpSetLocal => 23,
            OpCode::OpJump => 24,
            OpCode::OpJumpIfTrue => 25,
            OpCode::OpJumpIfFalse => 26,
            OpCode::OpLoop => 27,
            OpCode::OpCall => 28,
            OpCode::OpEof => 29,
        }
    }

    /// The opcode a byte encodes, or `Err(())` for a byte no opcode uses.
    pub fn try_from(v: u8) -> (r: Result<OpCode, ()>)
        ensures
            match r {
                Ok(op) => opcode_from(v) == Some(op),
                Err(()) => opcode_from(v) is None,
            },
    {
        if v == 0 {
            Ok(OpCode::OpConstant)
        } else if v == 1 {
            Ok(OpCode::OpAdd)
        } else if v == 2 {
            Ok(OpCode::OpSubtract)
        } else if v == 3 {
            Ok(OpCode::OpMultiply)
        } else if v == 4 {
            Ok(OpCode::OpDivide)
        } else if v == 5 {
            Ok(OpCode::OpNegate)
        } else if v == 6 {
            Ok(OpCode::OpPrint)
        } else if v == 7 {
            Ok(OpCode::OpReturn)
        } else if v == 8 {
            Ok(OpCode::OpTrue)
        } else if v == 9 {
            Ok(OpCode::OpFalse)
        } else if v == 10 {
            Ok(OpCode::OpNot)
        } else if v == 11 {
            Ok(OpCode::OpEqualEqual)
        } else if v == 12 {
            Ok(OpCode::OpBangEqual)
        } else if v == 13 {
            Ok(OpCode::OpLess)
        } else if v == 14 {
            Ok(OpCode::OpLessEqual)
        } else if v == 15 {
            Ok(OpCode::OpGreater)
        } else if v == 16 {
            Ok(OpCode::OpGreaterEqual)
        } else if v == 17 {
            Ok(OpCode::OpDefineGlobal)
        } else if v == 18 {
            Ok(OpCode::OpGetGlobal)
        } else if v == 19 {
            Ok(OpCode::OpSetGlobal)
        } else if v == 20 {
            Ok(OpCode::OpPop)
        } else if v == 21 {
            Ok(OpCode::OpPopN)
        } else if v == 22 {
            Ok(OpCode::OpGetLocal)
        } else if v == 23 {
            Ok(OpCode::OpSetLocal)
        } else if v == 24 {
            Ok(OpCode::OpJump)
        } else if v == 25 {
            Ok(OpCode::OpJumpIfTrue)
        } else if v == 26 {
            Ok(OpCode::OpJumpIfFalse)
        } else if v == 27 {
            Ok(OpCode::OpLoop)
        } else if v == 28 {
            Ok(OpCode::OpCall)
        } else if v == 29 {
            Ok(OpCode::OpEof)
        } else {
            Err(())
        }
    }
}

/// The line table, as logical tuples `(offset, lineno)`: `offset` is the
/// first code index whose source line is `lineno`.  Only entries whose line
/// strictly increases are stored, offsets are added in ascending order, so
/// both columns are strictly increasing.
pub struct LineInfo {
    pub info: Vec<(usize, usize)>,
}

/// Both columns of the table are strictly increasing.
pub open spec fn line_info_wf(s: Seq<(usize, usize)>) -> bool {
    forall|i: int, j: int|
        0 <= i < j < s.len() ==> (#[trigger] s[i]).0 < (#[trigger] s[j]).0 && s[i].1 < s[j].1
}

/// What adding `(offset, lineno)` does to the table: the first entry is
/// always stored, later entries only when their line exceeds the last
/// stored line.
pub open spec fn line_add(s: Seq<(usize, usize)>, offset: usize, lineno: usize) -> Seq<
    (usize, usize),
> {
    if s.len() == 0 {
        seq![(offset, lineno)]
    } else if lineno > s.last().1 {
        s.push((offset, lineno))
    } else {
        s
    }
}

/// The line recorded for a code offset: the line of the greatest stored
/// offset at or below it; `None` when the table is empty or the offset lies
/// before the first entry.
pub open spec fn line_lookup(s: Seq<(usize, usize)>, offset: int) -> Option<usize>
    decreases s.len(),
{
    if s.len() == 0 {
        None
    } else if s.last().0 <= offset {
        Some(s.last().1)
    } else {
        line_lookup(s.drop_last(), offset)
    }
}

impl LineInfo {
    pub fn new() -> (r: LineInfo)
        ensures
            r.info@ =~= Seq::<(usize, usize)>::empty(),
    {
        LineInfo { info: Vec::new() }
    }

    /// Records that code from `offset` on lies on `lineno`.  Offsets must be
    /// added in ascending order.
    pub fn add(&mut self, offset: usize, lineno: usize)
        requires
            line_info_wf(old(self).info@),
            old(self).info@.len() > 0 ==> old(self).info@.last().0 < offset,
        ensures
            final(self).info@ == line_add(old(self).info@, offset, lineno),
            line_info_wf(final(self).info@),
    {
        let n = self.info.len();
        if n == 0 {
            self.info.push((offset, lineno));
        } else {
            let last = self.info[n - 1];
            if lineno > last.1 {
                self.info.push((offset, lineno));
            }
        }
    }

    /// The line recorded for `offset`, if the table covers it.
    pub fn get_lineno(&self, offset: usize) -> (r: Option<usize>)
        ensures
            r == line_lookup(self.info@, offset as int),
    {
        let ghost whole = self.info@;
        let mut i: usize = self.info.len();
        proof {
            assert(whole.take(whole.len() as int) =~= whole);
        }
        while i > 0
            invariant
                i <= self.info@.len(),
                self.info@ == whole,
                line_lookup(whole, offset as int) == line_lookup(
                    whole.take(i as int),
                    offset as int,
                ),
            decreases i,
        {
            let pair = self.info[i - 1];
            proof {
                assert(whole.take(i as int).last() == whole[i as int - 1]);
            }
            if pair.0 <= offset {
                return Some(pair.1);
            }
            proof {
                assert(whole.take(i as int).drop_last() =~= whole.take(i as int - 1));
            }
            i = i - 1;
        }
        None
    }
}

/// For offsets `i <= j` that the table covers, the line at `i` is at most
/// the line at `j`: source lines never decrease along the code.
pub proof fn lemma_line_lookup_monotone(s: Seq<(usize, usize)>, i: int, j: int)
    requires
        line_info_wf(s),
        0 <= i <= j,
        line_lookup(s, i) is Some,
    ensures
        line_lookup(s, j) is Some,
        line_lookup(s, i)->0 <= line_lookup(s, j)->0,
    decreases s.len(),
{
    if s.len() == 0 {
    } else if s.last().0 <= i {
    } else if s.last().0 <= j {
        lemma_line_lookup_le_last(s.drop_last(), i);
        assert(s.drop_last().len() > 0);
        assert(s.drop_last().last() == s[s.len() as int - 2]);
        assert(s[s.len() as int - 2].1 < s.last().1);
    } else {
        lemma_line_lookup_monotone(s.drop_last(), i, j);
    }
}

/// The result of a lookup never exceeds the last stored line.
proof fn lemma_line_lookup_le_last(s: Seq<(usize, usize)>, x: int)
    requires
        line_info_wf(s),
        line_lookup(s, x) is Some,
    ensures
        s.len() > 0,
        line_lookup(s, x)->0 <= s.last().1,
    decreases s.len(),
{
    if s.len() == 0 {
    } else if s.last().0 <= x {
    } else {
        lemma_line_lookup_le_last(s.drop_last(), x);
        assert(s.drop_last().last() == s[s.len() as int - 2]);
        assert(s[s.len() as int - 2].1 < s.last().1);
    }
}

/// A compiled body: code bytes, the constant pool, and the line table.  The
/// table's offsets lie within the code and start at offset zero, so every
/// code offset of a nonempty chunk has a line.
pub struct Chunk {
    pub code: Vec<u8>,
    pub constants: Vec<Value>,
    pub line_info: LineInfo,
}

impl Chunk {
    /// The line table is well formed, covers the code from offset zero on,
    /// and reaches no further than the code.
    pub open spec fn wf(self) -> bool {
        &&& line_info_wf(self.line_info.info@)
        &&& self.line_info.info@.len() > 0 ==> self.line_info.info@.last().0
            < self.code@.len()
        &&& self.code@.len() > 0 ==> self.line_info.info@.len() > 0
            && self.line_info.info@[0].0 == 0
    }

    pub fn new() -> (r: Chunk)
        ensures
            r.code@ =~= Seq::<u8>::empty(),
            r.constants@ =~= Seq::<Value>::empty(),
            r.line_info.info@ =~= Seq::<(usize, usize)>::empty(),
            r.wf(),
    {
        Chunk { code: Vec::new(), constants: Vec::new(), line_info: LineInfo::new() }
    }

    /// How many code bytes the chunk holds.
    pub fn count(&self) -> (r: usize)
        ensures
            r == self.code@.len(),
    {
        self.code.len()
    }

    /// Appends one code byte, attributed to `lineno`.
    pub fn write(&mut self, op_code: u8, lineno: usize)
        requires
            old(self).wf(),
        ensures
            final(self).wf(),
            final(self).code@ == old(self).code@.push(op_code),
            final(self).constants@ == old(self).constants@,
            final(self).line_info.info@ == line_add(
                old(self).line_info.info@,
                old(self).code@.len() as usize,
                lineno,
            ),
    {
        self.code.push(op_code);
        let offset = self.code.len() - 1;
        self.line_info.add(offset, lineno);
    }

    /// Overwrites the code byte at `write_index`.
    pub fn replace_at(&mut self, op_code: u8, write_index: usize)
        requires
            old(self).wf(),
            write_index < old(self).code@.len(),
        ensures
            final(self).wf(),
            final(self).code@ == old(self).code@.update(write_index as int, op_code),
            final(self).constants@ == old(self).constants@,
            final(self).line_info == old(self).line_info,
    {
        self.code[write_index] = op_code;
    }

    /// Appends a constant and returns its index, or `None` when the pool is
    /// full: a chunk can address at most 256 constants.
    pub fn add_constant(&mut self, value: Value) -> (r: Option<u8>)
        requires
            old(self).wf(),
        ensures
            final(self).wf(),
            final(self).code@ == old(self).code@,
            final(self).line_info == old(self).line_info,
            match r {
                Some(i) => old(self).constants@.len() < 256 && i == old(self).constants@.len()
                    && final(self).constants@ == old(self).constants@.push(value),
                None => old(self).constants@.len() >= 256 && final(self).constants@ == old(
                    self,
                ).constants@,
            },
    {
        if self.constants.len() >= 256 {
            return None;
        }
        let index = self.constants.len();
        self.constants.push(value);
        Some(index as u8)
    }

    /// The code byte at `offset`.
    pub fn read_byte(&self, offset: usize) -> (r: u8)
        requires
            offset < self.code@.len(),
        ensures
            r == self.code@[offset as int],
    {
        self.code[offset]
    }

    /// The constant at index `address`.
    pub fn read_constant(&self, address: u8) -> (r: Value)
        requires
            (address as int) < self.constants@.len(),
        ensures
            r == self.constants@[address as int],
    {
        self.constants[address as usize].duplicate()
    }

    /// The source line for the code at `offset`; the table must cover it,
    /// which it does for every offset of a nonempty chunk.
    pub fn get_lineno(&self, offset: usize) -> (r: usize)
        requires
            line_lookup(self.line_info.info@, offset as int) is Some,
        ensures
            Some(r) == line_lookup(self.line_info.info@, offset as int),
    {
        match self.line_info.get_lineno(offset) {
            Some(l) => l,
            None => 0,
        }
    }
}

} // verus!
