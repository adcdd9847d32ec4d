//! The in-memory program representation: opcodes, instruction words, constant
//! values and function chunks, together with their mathematical views.

use vstd::prelude::*;
use crate::error::DecodeError;

verus! {

/// The closed set of instruction tags, one per defined tag value 0 through 79.
/// Several tags are deprecated in current toolchains but remain valid decode
/// targets for format-version compatibility.
#[derive(Clone, Copy, Debug, PartialEq, Eq, Structural)]
pub enum OpCode {
    Nop,
    Break,
    LoadNil,
    LoadBool,
    LoadNumber,
    LoadConstant,
    Move,
    GetGlobal,
    SetGlobal,
    GetUpvalue,
    SetUpValue,
    GetImport,
    GetTable,
    SetTable,
    GetTableString,
    SetTableString,
    GetTableNumber,
    SetTableNumber,
    NewClosure,
    Namecall,
    Call,
    Return,
    Jump,
    JumpBack,
    JumpIf,
    JumpIfNot,
    JumpIfEqual,
    JumpIfLessThanOrEqual,
    JumpIfLessThan,
    JumpIfNotEqual,
    JumpIfNotLessThanOrEqual,
    JumpIfNotLessThan,
    Add,
    Sub,
    Mul,
    Div,
    Mod,
    Pow,
    AddConstant,
    SubConstant,
    MulConstant,
    DivConstant,
    ModConstant,
    PowConstant,
    And,
    Or,
    AndConstant,
    OrConstant,
    Concat,
    Not,
    Minus,
    Length,
    NewTable,
    DupTable,
    SetList,
    NumericForPrep,
    NumericForLoop,
    GenericForLoop,
    GenericForPrepINext,
    DeprecatedForLoopINext,
    GenericForPrepNext,
    DeprecatedForPrepNext,
    GetVarargs,
    DupClosure,
    PrepVarargs,
    LoadConstantExtended,
    JumpExtended,
    FastCall,
    Coverage,
    Capture,
    DeprecatedJumpIfConstantEqual,
    DeprecatedJumpIfConstantNotEqual,
    FastCallSingle,
    FastCallDouble,
    FastCallRegisterConstant,
    GenericForPrep,
    JumpExtendedIfConstantNil,
    JumpExtendedIfConstantEqualBool,
    JumpExtendedIfConstantEqualNumber,
    JumpExtendedIfConstantEqualString,
}

impl OpCode {
    /// The wire tag of this opcode: the value its variant stands for in an
    /// instruction word's low byte.
    pub open spec fn tag(self) -> u8 {
        match self {
            OpCode::Nop => 0,
            OpCode::Break => 1,
            OpCode::LoadNil => 2,
            OpCode::LoadBool => 3,
            OpCode::LoadNumber => 4,
            OpCode::LoadConstant => 5,
            OpCode::Move => 6,
            OpCode::GetGlobal => 7,
            OpCode::SetGlobal => 8,
            OpCode::GetUpvalue => 9,
            OpCode::SetUpValue => 10,
            OpCode::GetImport => 11,
            OpCode::GetTable => 12,
            OpCode::SetTable => 13,
            OpCode::GetTableString => 14,
            OpCode::SetTableString => 15,
            OpCode::GetTableNumber => 16,
            OpCode::SetTableNumber => 17,
            OpCode::NewClosure => 18,
            OpCode::Namecall => 19,
            OpCode::Call => 20,
            OpCode::Return => 21,
            OpCode::Jump => 22,
            OpCode::JumpBack => 23,
            OpCode::JumpIf => 24,
            OpCode::JumpIfNot => 25,
            OpCode::JumpIfEqual => 26,
            OpCode::JumpIfLessThanOrEqual => 27,
            OpCode::JumpIfLessThan => 28,
            OpCode::JumpIfNotEqual => 29,
            OpCode::JumpIfNotLessThanOrEqual => 30,
            OpCode::JumpIfNotLessThan => 31,
            OpCode::Add => 32,
            OpCode::Sub => 33,
            OpCode::Mul => 34,
            OpCode::Div => 35,
            OpCode::Mod => 36,
            OpCode::Pow => 37,
            OpCode::AddConstant => 38,
            OpCode::SubConstant => 39,
            OpCode::MulConstant => 40,
            OpCode::DivConstant => 41,
            OpCode::ModConstant => 42,
            OpCode::PowConstant => 43,
            OpCode::And => 44,
            OpCode::Or => 45,
            OpCode::AndConstant => 46,
            OpCode::OrConstant => 47,
            OpCode::Concat => 48,
            OpCode::Not => 49,
            OpCode::Minus => 50,
            OpCode::Length => 51,
            OpCode::NewTable => 52,
            OpCode::DupTable => 53,
            OpCode::SetList => 54,
            OpCode::NumericForPrep => 55,
            OpCode::NumericForLoop => 56,
            OpCode::GenericForLoop => 57,
            OpCode::GenericForPrepINext => 58,
            OpCode::DeprecatedForLoopINext => 59,
            OpCode::GenericForPrepNext => 60,
            OpCode::DeprecatedForPrepNext => 61,
            OpCode::GetVarargs => 62,
            OpCode::DupClosure => 63,
            OpCode::PrepVarargs => 64,
            OpCode::LoadConstantExtended => 65,
            OpCode::JumpExtended => 66,
            OpCode::FastCall => 67,
            OpCode::Coverage => 68,
            OpCode::Capture => 69,
            OpCode::DeprecatedJumpIfConstantEqual => 70,
            OpCode::DeprecatedJumpIfConstantNotEqual => 71,
            OpCode::FastCallSingle => 72,
            OpCode::FastCallDouble => 73,
            OpCode::FastCallRegisterConstant => 74,
            OpCode::GenericForPrep => 75,
            OpCode::JumpExtendedIfConstantNil => 76,
            OpCode::JumpExtendedIfConstantEqualBool => 77,
            OpCode::JumpExtendedIfConstantEqualNumber => 78,
            OpCode::JumpExtendedIfConstantEqualString => 79,
        }
    }

    /// Looks a wire tag up in the opcode table. Exactly the tags 0 through 79
    /// are defined; every other byte matches no opcode.
    pub fn from_tag(tag: u8) -> (r: Option<OpCode>)
        ensures
            tag <= 79 ==> (r matches Some(op) && op.tag() == tag),
            tag > 79 ==> r is None,
    {
        match tag {
            0 => Some(OpCode::Nop),
            1 => Some(OpCode::Break),
            2 => Some(OpCode::LoadNil),
            3 => Some(OpCode::LoadBool),
            4 => Some(OpCode::LoadNumber),
            5 => Some(OpCode::LoadConstant),
            6 => Some(OpCode::Move),
            7 => Some(OpCode::GetGlobal),
            8 => Some(OpCode::SetGlobal),
            9 => Some(OpCode::GetUpvalue),
            10 => Some(OpCode::SetUpValue),
            11 => Some(OpCode::GetImport),
            12 => Some(OpCode::GetTable),
            13 => Some(OpCode::SetTable),
            14 => Some(OpCode::GetTableString),
            15 => Some(OpCode::SetTableString),
            16 => Some(OpCode::GetTableNumber),
            17 => Some(OpCode::SetTableNumber),
            18 => Some(OpCode::NewClosure),
            19 => Some(OpCode::Namecall),
            20 => Some(OpCode::Call),
            21 => Some(OpCode::Return),
            22 => Some(OpCode::Jump),
            23 => Some(OpCode::JumpBack),
            24 => Some(OpCode::JumpIf),
            25 => Some(OpCode::JumpIfNot),
            26 => Some(OpCode::JumpIfEqual),
            27 => Some(OpCode::JumpIfLessThanOrEqual),
            28 => Some(OpCode::JumpIfLessThan),
            29 => Some(OpCode::JumpIfNotEqual),
            30 => Some(OpCode::JumpIfNotLessThanOrEqual),
            31 => Some(OpCode::JumpIfNotLessThan),
            32 => Some(OpCode::Add),
            33 => Some(OpCode::Sub),
            34 => Some(OpCode::Mul),
            35 => Some(OpCode::Div),
            36 => Some(OpCode::Mod),
            37 => Some(OpCode::Pow),
            38 => Some(OpCode::AddConstant),
            39 => Some(OpCode::SubConstant),
            40 => Some(OpCode::MulConstant),
            41 => Some(OpCode::DivConstant),
            42 => Some(OpCode::ModConstant),
            43 => Some(OpCode::PowConstant),
            44 => Some(OpCode::And),
            45 => Some(OpCode::Or),
            46 => Some(OpCode::AndConstant),
            47 => Some(OpCode::OrConstant),
            48 => Some(OpCode::Concat),
            49 => Some(OpCode::Not),
            50 => Some(OpCode::Minus),
            51 => Some(OpCode::Length),
            52 => Some(OpCode::NewTable),
            53 => Some(OpCode::DupTable),
            54 => Some(OpCode::SetList),
            55 => Some(OpCode::NumericForPrep),
            56 => Some(OpCode::NumericForLoop),
            57 => Some(OpCode::GenericForLoop),
            58 => Some(OpCode::GenericForPrepINext),
            59 => Some(OpCode::DeprecatedForLoopINext),
            60 => Some(OpCode::GenericForPrepNext),
            61 => Some(OpCode::DeprecatedForPrepNext),
            62 => Some(OpCode::GetVarargs),
            63 => Some(OpCode::DupClosure),
            64 => Some(OpCode::PrepVarargs),
            65 => Some(OpCode::LoadConstantExtended),
            66 => Some(OpCode::JumpExtended),
            67 => Some(OpCode::FastCall),
            68 => Some(OpCode::Coverage),
            69 => Some(OpCode::Capture),
            70 => Some(OpCode::DeprecatedJumpIfConstantEqual),
            71 => Some(OpCode::DeprecatedJumpIfConstantNotEqual),
            72 => Some(OpCode::FastCallSingle),
            73 => Some(OpCode::FastCallDouble),
            74 => Some(OpCode::FastCallRegisterConstant),
            75 => Some(OpCode::GenericForPrep),
            76 => Some(OpCode::JumpExtendedIfConstantNil),
            77 => Some(OpCode::JumpExtendedIfConstantEqualBool),
            78 => Some(OpCode::JumpExtendedIfConstantEqualNumber),
            79 => Some(OpCode::JumpExtendedIfConstantEqualString),
            _ => None,
        }
    }
}

/// One instruction as it stands on the wire: an opaque 32-bit word, decoded on
/// demand. Which operand view applies (three 8-bit fields, an 8-bit plus a
/// signed 16-bit field, or a signed 24-bit field) is determined by the
/// opcode's format, which the caller is expected to know; the word itself is
/// kept format-agnostic to match the wire layout exactly.
#[derive(Clone, Copy, Debug, PartialEq, Eq, Structural)]
pub struct Instruction(pub u32);

impl Instruction {
    /// Looks the word's low byte up in the opcode table. Fails with
    /// `InvalidOpcode` on an unknown tag; never panics.
    pub fn opcode(&self) -> (r: Result<OpCode, DecodeError>)
        ensures
            (self.0 & 0xFF) <= 79 ==> (r matches Ok(op) && op.tag() == (self.0 & 0xFF) as u8),
            (self.0 & 0xFF) > 79 ==> r == Err::<OpCode, DecodeError>(
                DecodeError::InvalidOpcode((self.0 & 0xFF) as u8),
            ),
    {
        let tag = (self.0 & 0xFF) as u8;
        proof {
            let w = self.0;
            assert((w & 0xFF) <= 0xFF) by (bit_vector);
        }
        match OpCode::from_tag(tag) {
            Some(op) => Ok(op),
            None => Err(DecodeError::InvalidOpcode(tag)),
        }
    }

    /// The 8-bit operand field at bit offset 8.
    pub fn operand_a(&self) -> (r: u8)
        ensures
            r == (self.0 >> 8) & 0xFF,
    {
        proof {
            let w = self.0;
            assert(((w >> 8) & 0xFF) <= 0xFF) by (bit_vector);
        }
        ((self.0 >> 8) & 0xFF) as u8
    }

    /// The 8-bit operand field at bit offset 16.
    pub fn operand_b(&self) -> (r: u8)
        ensures
            r == (self.0 >> 16) & 0xFF,
    {
        proof {
            let w = self.0;
            assert(((w >> 16) & 0xFF) <= 0xFF) by (bit_vector);
        }
        ((self.0 >> 16) & 0xFF) as u8
    }

    /// The 8-bit operand field at bit offset 24.
    pub fn operand_c(&self) -> (r: u8)
        ensures
            r == (self.0 >> 24) & 0xFF,
    {
        proof {
            let w = self.0;
            assert(((w >> 24) & 0xFF) <= 0xFF) by (bit_vector);
        }
        ((self.0 >> 24) & 0xFF) as u8
    }

    /// The signed 16-bit operand field at bit offset 16. It overlaps the
    /// fields of `operand_b` and `operand_c` and applies only to opcodes in
    /// that format.
    pub fn operand_d(&self) -> (r: i16)
        ensures
            r == (self.0 >> 16) as i16,
    {
        (self.0 >> 16) as i16
    }

    /// The signed 24-bit operand field at bit offset 8, used by opcodes such
    /// as extended unconditional jumps.
    pub fn operand_e(&self) -> (r: i32)
        ensures
            (self.0 >> 8) < 0x800000 ==> r == (self.0 >> 8) as i32,
            (self.0 >> 8) >= 0x800000 ==> r == (self.0 >> 8) - 0x1000000,
    {
        proof {
            let w = self.0;
            assert((w >> 8) < 0x1000000) by (bit_vector);
        }
        let field = self.0 >> 8;
        if field >= 0x800000 {
            (field as i32) - 0x1000000
        } else {
            field as i32
        }
    }

    /// The untouched word, for opcodes that need custom handling such as a
    /// paired auxiliary word.
    pub fn raw(&self) -> (r: u32)
        ensures
            r == self.0,
    {
        self.0
    }
}

/// How a function accepts a variable argument count. The wire flag bytes 1, 2
/// and 4 map to the three variants; every other flag byte is rejected.
#[derive(Clone, Copy, Debug, PartialEq, Eq, Structural)]
pub enum Vararg {
    HasArg,
    IsVararg,
    NeedsArg,
}

/// A reference value inside a table constant: the position of an entry
/// decoded earlier in the same constant pool. Resolution is deferred to the
/// enclosing pool.
#[derive(Clone, Copy, Debug, PartialEq, Eq, Structural)]
pub enum Value {
    ConstantIndex(usize),
}

/// One entry of a chunk's constant pool.
#[derive(Debug, PartialEq, Eq)]
pub enum Constant {
    Nil,
    Boolean(bool),
    /// A numeric literal, held as the IEEE-754 bit pattern of the 8 wire
    /// bytes; floating-point arithmetic stays outside the decoder.
    Number(u64),
    /// A string literal, resolved from the shared string table; held as its
    /// raw bytes, copied verbatim to preserve non-ASCII content.
    Str(Vec<u8>),
    /// A table literal: an ordered sequence of references to earlier entries
    /// of the same pool.
    Table(Vec<Value>),
}

/// The mathematical image of a [`Value`].
pub enum SpecValue {
    ConstantIndex(int),
}

/// The mathematical image of a [`Constant`].
pub enum SpecConstant {
    Nil,
    Boolean(bool),
    Number(u64),
    Str(Seq<u8>),
    Table(Seq<SpecValue>),
}

impl View for Value {
    type V = SpecValue;

    open spec fn view(&self) -> SpecValue {
        match self {
            Value::ConstantIndex(i) => SpecValue::ConstantIndex(*i as int),
        }
    }
}

/// The elementwise view of a table constant's entries.
pub open spec fn view_values(vs: Seq<Value>) -> Seq<SpecValue> {
    vs.map_values(|v: Value| v@)
}

/// Appending an entry and taking the view commute.
pub proof fn lemma_view_values_push(vs: Seq<Value>, v: Value)
    ensures
        view_values(vs.push(v)) == view_values(vs).push(v@),
{
    assert(view_values(vs.push(v)) =~= view_values(vs).push(v@));
}

impl View for Constant {
    type V = SpecConstant;

    open spec fn view(&self) -> SpecConstant {
        match self {
            Constant::Nil => SpecConstant::Nil,
            Constant::Boolean(b) => SpecConstant::Boolean(*b),
            Constant::Number(n) => SpecConstant::Number(*n),
            Constant::Str(s) => SpecConstant::Str(s@),
            Constant::Table(vs) => SpecConstant::Table(view_values(vs@)),
        }
    }
}

/// The elementwise view of a constant pool.
pub open spec fn view_constants(cs: Seq<Constant>) -> Seq<SpecConstant> {
    cs.map_values(|c: Constant| c@)
}

/// Appending a constant and taking the view commute.
pub proof fn lemma_view_constants_push(cs: Seq<Constant>, c: Constant)
    ensures
        view_constants(cs.push(c)) == view_constants(cs).push(c@),
{
    assert(view_constants(cs.push(c)) =~= view_constants(cs).push(c@));
}

/// The words of an instruction list.
pub open spec fn view_words(is: Seq<Instruction>) -> Seq<u32> {
    is.map_values(|i: Instruction| i.0)
}

/// Appending an instruction and taking the words commute.
pub proof fn lemma_view_words_push(is: Seq<Instruction>, i: Instruction)
    ensures
        view_words(is.push(i)) == view_words(is).push(i.0),
{
    assert(view_words(is.push(i)) =~= view_words(is).push(i.0));
}

/// The mathematical image of a sequence of table positions.
pub open spec fn view_indices(is: Seq<usize>) -> Seq<int> {
    is.map_values(|i: usize| i as int)
}

/// Appending a position and taking the image commute.
pub proof fn lemma_view_indices_push(is: Seq<usize>, i: usize)
    ensures
        view_indices(is.push(i)) == view_indices(is).push(i as int),
{
    assert(view_indices(is.push(i)) =~= view_indices(is).push(i as int));
}

/// One compiled function: its metadata, flat instruction list, constant pool,
/// child-function references and optional source information. A chunk is
/// immutable once built; the decoder assembles it fully before it becomes
/// visible, and returns none at all on error.
#[derive(Debug, PartialEq, Eq)]
pub struct LuauChunk {
    pub max_stack_size: u8,
    pub num_params: u8,
    pub num_upvalues: u8,
    pub vararg_kind: Vararg,
    pub instructions: Vec<Instruction>,
    pub constants: Vec<Constant>,
    /// Positions in the prototype table of this chunk's nested functions.
    /// The table is indexed by decode order, so every reference points at a
    /// chunk decoded strictly earlier; no cycles are possible.
    pub child_functions: Vec<usize>,
    /// The chunk's name, resolved from the shared string table; a wire index
    /// of 0 means unnamed.
    pub name: Option<Vec<u8>>,
    /// The absolute source-line records of the optional line-information
    /// block, as read from the wire.
    pub line_info: Option<Vec<u32>>,
}

/// The mathematical image of a [`LuauChunk`].
pub struct SpecChunk {
    pub max_stack_size: u8,
    pub num_params: u8,
    pub num_upvalues: u8,
    pub vararg_kind: Vararg,
    pub instructions: Seq<u32>,
    pub constants: Seq<SpecConstant>,
    pub child_functions: Seq<int>,
    pub name: Option<Seq<u8>>,
    pub line_info: Option<Seq<u32>>,
}

/// The result of a successful decode: the whole prototype table, in decode
/// order, together with the position of the main chunk within it. Child
/// references of every chunk — and so, transitively, every chunk the main
/// chunk owns — resolve against this same table.
#[derive(Debug, PartialEq, Eq)]
pub struct ChunkTree {
    /// The prototype table: every decoded chunk, at the index equal to its
    /// decode order.
    pub protos: Vec<LuauChunk>,
    /// The position of the main chunk in the table.
    pub main: usize,
}

impl ChunkTree {
    /// The root of the tree: the prototype-table entry the main selector
    /// names. Decoding guarantees the selector lies within the table.
    pub fn main_chunk(&self) -> (r: &LuauChunk)
        requires
            self.main < self.protos@.len(),
        ensures
            r == self.protos@[self.main as int],
    {
        &self.protos[self.main]
    }
}

impl View for LuauChunk {
    type V = SpecChunk;

    open spec fn view(&self) -> SpecChunk {
        SpecChunk {
            max_stack_size: self.max_stack_size,
            num_params: self.num_params,
            num_upvalues: self.num_upvalues,
            vararg_kind: self.vararg_kind,
            instructions: view_words(self.instructions@),
            constants: view_constants(self.constants@),
            child_functions: view_indices(self.child_functions@),
            name: match &self.name {
                Some(n) => Some(n@),
                None => None,
            },
            line_info: match &self.line_info {
                Some(l) => Some(l@),
                None => None,
            },
        }
    }
}

} // verus!
