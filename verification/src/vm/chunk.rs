//! Chunks of bytecode: the code, the constants it refers to, and the
//! source line of every byte of code.

use vstd::prelude::*;
use vstd::string::StringExecFns;
use crate::text::{nat_text, padded4_text, u64_to_padded4, u64_to_string};

verus! {

/// The instructions. `Constant` is followed by one byte, the index of
/// the constant; the others stand alone.
#[derive(Debug, Clone, Copy, PartialEq, Eq, Structural)]
pub enum OpCode {
    Constant,
    Add,
    Subtract,
    Multiply,
    Divide,
    Negate,
    Return,
    Nil,
    True,
    False,
    Equal,
    Greater,
    Less,
    Not,
}

/// The byte that stands for an instruction.
pub open spec fn byte_of(op: OpCode) -> u8 {
    match op {
        OpCode::Constant => 0,
        OpCode::Add => 1,
        OpCode::Subtract => 2,
        OpCode::Multiply => 3,
        OpCode::Divide => 4,
        OpCode::Negate => 5,
        OpCode::Return => 6,
        OpCode::Nil => 7,
        OpCode::True => 8,
        OpCode::False => 9,
        OpCode::Equal => 10,
        OpCode::Greater => 11,
        OpCode::Less => 12,
        OpCode::Not => 13,
    }
}

/// The instruction that a byte stands for, if it stands for one.
pub open spec fn op_of(byte: u8) -> Option<OpCode> {
    if byte == 0 {
        Some(OpCode::Constant)
    } else if byte == 1 {
        Some(OpCode::Add)
    } else if byte == 2 {
        Some(OpCode::Subtract)
    } else if byte == 3 {
        Some(OpCode::Multiply)
    } else if byte == 4 {
        Some(OpCode::Divide)
    } else if byte == 5 {
        Some(OpCode::Negate)
    } else if byte == 6 {
        Some(OpCode::Return)
    } else if byte == 7 {
        Some(OpCode::Nil)
    } else if byte == 8 {
        Some(OpCode::True)
    } else if byte == 9 {
        Some(OpCode::False)
    } else if byte == 10 {
        Some(OpCode::Equal)
    } else if byte == 11 {
        Some(OpCode::Greater)
    } else if byte == 12 {
        Some(OpCode::Less)
    } else if byte == 13 {
        Some(OpCode::Not)
    } else {
        None
    }
}

/// The name of an instruction in a listing.
pub open spec fn name_of(op: OpCode) -> Seq<char> {
    match op {
        OpCode::Constant => "OP_CONSTANT"@,
        OpCode::Add => "OP_ADD"@,
        OpCode::Subtract => "OP_SUBTRACT"@,
        OpCode::Multiply => "OP_MULTIPLY"@,
        OpCode::Divide => "OP_DIVIDE"@,
        OpCode::Negate => "OP_NEGATE"@,
        OpCode::Return => "OP_RETURN"@,
        OpCode::Nil => "OP_NIL"@,
        OpCode::True => "OP_TRUE"@,
        OpCode::False => "OP_FALSE"@,
        OpCode::Equal => "OP_EQUAL"@,
        OpCode::Greater => "OP_GREATER"@,
        OpCode::Less => "OP_LESS"@,
        OpCode::Not => "OP_NOT"@,
    }
}

impl OpCode {
    pub fn to_byte(self) -> (r: u8)
        ensures
            r == byte_of(self),
    {
        match self {
            OpCode::Constant => 0,
            OpCode::Add => 1,
            OpCode::Subtract => 2,
            OpCode::Multiply => 3,
            OpCode::Divide => 4,
            OpCode::Negate => 5,
            OpCode::Return => 6,
            OpCode::Nil => 7,
            OpCode::True => 8,
            OpCode::False => 9,
            OpCode::Equal => 10,
            OpCode::Greater => 11,
            OpCode::Less => 12,
            OpCode::Not => 13,
        }
    }

    pub fn from_byte(byte: u8) -> (r: Option<OpCode>)
        ensures
            r == op_of(byte),
    {
        if byte == 0 {
            Some(OpCode::Constant)
        } else if byte == 1 {
            Some(OpCode::Add)
        } else if byte == 2 {
            Some(OpCode::Subtract)
        } else if byte == 3 {
            Some(OpCode::Multiply)
        } else if byte == 4 {
            Some(OpCode::Divide)
        } else if byte == 5 {
            Some(OpCode::Negate)
        } else if byte == 6 {
            Some(OpCode::Return)
        } else if byte == 7 {
            Some(OpCode::Nil)
        } else if byte == 8 {
            Some(OpCode::True)
        } else if byte == 9 {
            Some(OpCode::False)
        } else if byte == 10 {
            Some(OpCode::Equal)
        } else if byte == 11 {
            Some(OpCode::Greater)
        } else if byte == 12 {
            Some(OpCode::Less)
        } else if byte == 13 {
            Some(OpCode::Not)
        } else {
            None
        }
    }

    pub fn name(self) -> (r: &'static str)
        ensures
            r@ == name_of(self),
    {
        match self {
            OpCode::Constant => "OP_CONSTANT",
            OpCode::Add => "OP_ADD",
            OpCode::Subtract => "OP_SUBTRACT",
            OpCode::Multiply => "OP_MULTIPLY",
            OpCode::Divide => "OP_DIVIDE",
            OpCode::Negate => "OP_NEGATE",
            OpCode::Return => "OP_RETURN",
            OpCode::Nil => "OP_NIL",
            OpCode::True => "OP_TRUE",
            OpCode::False => "OP_FALSE",
            OpCode::Equal => "OP_EQUAL",
            OpCode::Greater => "OP_GREATER",
            OpCode::Less => "OP_LESS",
            OpCode::Not => "OP_NOT",
        }
    }
}

/// Every instruction is the one that its byte stands for.
pub proof fn lemma_byte_round_trip(op: OpCode)
    ensures
        op_of(byte_of(op)) == Some(op),
{
}

/// A chunk. Constants are numbers, held as their decimal text.
#[derive(Debug)]
pub struct Chunk {
    pub code: Vec<u8>,
    pub constants: Vec<String>,
    pub lines: Vec<u32>,
}

/// The texts of the constants.
pub open spec fn constants_view(constants: Seq<String>) -> Seq<Seq<char>> {
    Seq::new(constants.len(), |i: int| constants[i]@)
}

/// The mathematical value of a chunk.
pub struct ChunkView {
    pub code: Seq<u8>,
    pub constants: Seq<Seq<char>>,
    pub lines: Seq<u32>,
}

impl View for Chunk {
    type V = ChunkView;

    open spec fn view(&self) -> ChunkView {
        ChunkView {
            code: self.code@,
            constants: constants_view(self.constants@),
            lines: self.lines@,
        }
    }
}

/// The start of the listing line for the byte at `offset`: the offset,
/// then the source line, or a bar if it is the line of the byte before.
pub open spec fn listing_prefix(c: ChunkView, offset: int) -> Seq<char> {
    padded4_text(offset as nat) + " "@ + if offset > 0 && c.lines[offset] == c.lines[offset - 1] {
        "   | "@
    } else {
        padded4_text(c.lines[offset] as nat) + " "@
    }
}

/// What the listing says of the instruction at `offset`, after the
/// prefix.
pub open spec fn listing_body(c: ChunkView, offset: int) -> Seq<char> {
    match op_of(c.code[offset]) {
        Some(OpCode::Constant) => if offset + 1 < c.code.len() && c.code[offset + 1]
            < c.constants.len() {
            "OP_CONSTANT "@ + padded4_text(c.code[offset + 1] as nat) + " "@
                + c.constants[c.code[offset + 1] as int] + "\n"@
        } else {
            "OP_CONSTANT ?\n"@
        },
        Some(op) => name_of(op) + "\n"@,
        None => "Unknown opcode "@ + nat_text(c.code[offset] as nat) + "\n"@,
    }
}

/// The offset of the instruction after the one at `offset`: past its
/// operand, if it has one.
pub open spec fn next_offset(c: ChunkView, offset: int) -> int {
    if op_of(c.code[offset]) == Some(OpCode::Constant) && offset + 1 < c.code.len() {
        offset + 2
    } else {
        offset + 1
    }
}

/// The listing of the instructions from `offset` on.
pub open spec fn listing_from(c: ChunkView, offset: int) -> Seq<char>
    decreases c.code.len() + 2 - offset,
{
    if 0 <= offset < c.code.len() {
        listing_prefix(c, offset) + listing_body(c, offset) + listing_from(
            c,
            next_offset(c, offset),
        )
    } else {
        Seq::empty()
    }
}

/// The listing of a chunk under the heading `name`.
pub open spec fn listing(c: ChunkView, name: Seq<char>) -> Seq<char> {
    "== "@ + name + " ==\n"@ + listing_from(c, 0)
}

impl Chunk {
    /// The invariant: every byte of code has its line.
    pub open spec fn wf(&self) -> bool {
        self.lines@.len() == self.code@.len()
    }

    pub fn new() -> (r: Self)
        ensures
            r.wf(),
            r@ == (ChunkView { code: Seq::empty(), constants: Seq::empty(), lines: Seq::empty() }),
    {
        let r = Self { code: Vec::new(), constants: Vec::new(), lines: Vec::new() };
        assert(r@.constants =~= Seq::empty());
        r
    }

    /// Appends an instruction that comes from source line `line`.
    pub fn write_op_code(&mut self, op_code: OpCode, line: u32)
        requires
            old(self).wf(),
        ensures
            final(self).wf(),
            final(self)@ == (ChunkView {
                code: old(self)@.code.push(byte_of(op_code)),
                lines: old(self)@.lines.push(line),
                ..old(self)@
            }),
    {
        self.code.push(op_code.to_byte());
        self.lines.push(line);
    }

    /// Appends a byte that comes from source line `line`.
    pub fn write(&mut self, byte: u8, line: u32)
        requires
            old(self).wf(),
        ensures
            final(self).wf(),
            final(self)@ == (ChunkView {
                code: old(self)@.code.push(byte),
                lines: old(self)@.lines.push(line),
                ..old(self)@
            }),
    {
        self.code.push(byte);
        self.lines.push(line);
    }

    /// Adds a constant and returns its index.
    pub fn add_constant(&mut self, value: String) -> (r: usize)
        requires
            old(self).wf(),
        ensures
            final(self).wf(),
            r == old(self)@.constants.len(),
            final(self)@ == (ChunkView {
                constants: old(self)@.constants.push(value@),
                ..old(self)@
            }),
    {
        self.constants.push(value);
        assert(final(self)@.constants =~= old(self)@.constants.push(value@));
        self.constants.len() - 1
    }

    /// The listing of the chunk under the heading `name`.
    pub fn disassemble(&self, name: &str) -> (r: String)
        requires
            self.wf(),
        ensures
            r@ == listing(self@, name@),
    {
        let mut output = String::from_str("== ");
        output.append(name);
        output.append(" ==\n");
        let mut offset: usize = 0;
        let ghost head = output@;
        assert(output@ + listing_from(self@, 0) == listing(self@, name@));
        while offset < self.code.len()
            invariant
                self.wf(),
                output@ + listing_from(self@, offset as int) == listing(self@, name@),
            decreases self.code@.len() - offset,
        {
            let (line, next) = self.disassemble_instruction(offset);
            let ghost before = output@;
            output.append(line.as_str());
            assert(before + (line@ + listing_from(self@, next as int)) =~= (before + line@)
                + listing_from(self@, next as int));
            offset = next;
        }
        assert(output@ + Seq::<char>::empty() =~= output@);
        output
    }

    /// The listing line of the instruction at `offset`, and the offset
    /// of the next instruction.
    pub fn disassemble_instruction(&self, offset: usize) -> (r: (String, usize))
        requires
            self.wf(),
            offset < self.code@.len(),
        ensures
            r.0@ == listing_prefix(self@, offset as int) + listing_body(self@, offset as int),
            r.1 == next_offset(self@, offset as int),
            offset < r.1,
    {
        let mut output = u64_to_padded4(offset as u64);
        output.append(" ");
        if offset > 0 && self.lines[offset] == self.lines[offset - 1] {
            output.append("   | ");
        } else {
            let line = u64_to_padded4(self.lines[offset] as u64);
            output.append(line.as_str());
            output.append(" ");
        }
        let ghost prefix = output@;
        assert(prefix =~= listing_prefix(self@, offset as int));
        let byte = self.code[offset];
        match OpCode::from_byte(byte) {
            Some(OpCode::Constant) => {
                let next = self.disassemble_constant_instruction(&mut output, offset);
                (output, next)
            },
            Some(op) => {
                let next = self.disassemble_simple_instruction(&mut output, op.name(), offset);
                (output, next)
            },
            None => {
                output.append("Unknown opcode ");
                let number = u64_to_string(byte as u64);
                output.append(number.as_str());
                output.append("\n");
                assert(output@ =~= prefix + ("Unknown opcode "@ + nat_text(byte as nat) + "\n"@));
                assert(offset < self.code.len());
                (output, offset + 1)
            },
        }
    }

    fn disassemble_constant_instruction(&self, output: &mut String, offset: usize) -> (r: usize)
        requires
            self.wf(),
            offset < self.code@.len(),
            op_of(self.code@[offset as int]) == Some(OpCode::Constant),
        ensures
            final(output)@ == old(output)@ + listing_body(self@, offset as int),
            r == next_offset(self@, offset as int),
    {
        let ghost before = output@;
        assert(offset < self.code.len());
        if offset + 1 >= self.code.len() {
            output.append("OP_CONSTANT ?\n");
            return offset + 1;
        }
        if (self.code[offset + 1] as usize) < self.constants.len() {
            let constant_index = self.code[offset + 1] as usize;
            output.append("OP_CONSTANT ");
            let index = u64_to_padded4(constant_index as u64);
            output.append(index.as_str());
            output.append(" ");
            output.append(self.constants[constant_index].as_str());
            output.append("\n");
            assert(output@ =~= before + ("OP_CONSTANT "@ + padded4_text(constant_index as nat)
                + " "@ + self.constants@[constant_index as int]@ + "\n"@));
        } else {
            output.append("OP_CONSTANT ?\n");
        }
        offset + 2
    }

    fn disassemble_simple_instruction(&self, output: &mut String, name: &str, offset: usize) -> (r:
        usize)
        requires
            offset < self.code@.len(),
        ensures
            final(output)@ == old(output)@ + (name@ + "\n"@),
            r == offset + 1,
    {
        let ghost before = output@;
        assert(offset < self.code.len());
        output.append(name);
        output.append("\n");
        assert(output@ =~= before + (name@ + "\n"@));
        offset + 1
    }
}

} // verus!
