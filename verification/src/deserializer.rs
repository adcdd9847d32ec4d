//! The executable decoder: a forward-only byte cursor together with the
//! growing string and prototype tables, every read proved to return exactly
//! what the model in [`crate::model`] says.

use vstd::prelude::*;
use crate::bytecode::{
    ChunkTree, Instruction, LuauChunk, SpecChunk, Value, Vararg, lemma_view_constants_push,
    lemma_view_indices_push, lemma_view_values_push, lemma_view_words_push, view_constants,
    view_indices, view_values, view_words, Constant,
};
use crate::error::{DecodeError, Feature};
use crate::model::{
    spec_bytes, spec_base128_weight, spec_cint, spec_cint_rec, spec_child_refs, spec_constant,
    spec_constants, spec_deserialize, spec_line_entry_count, spec_line_info, spec_proto,
    spec_protos, spec_string, spec_strings, spec_table_values, spec_u32, spec_u64, spec_u8,
    spec_words,
};
use crate::error::SpecError;

verus! {

/// The elementwise view of the interned string table.
pub open spec fn view_strings(ss: Seq<Vec<u8>>) -> Seq<Seq<u8>> {
    ss.map_values(|s: Vec<u8>| s@)
}

/// Appending a string and taking the view commute.
pub proof fn lemma_view_strings_push(ss: Seq<Vec<u8>>, s: Vec<u8>)
    ensures
        view_strings(ss.push(s)) == view_strings(ss).push(s@),
{
    assert(view_strings(ss.push(s)) =~= view_strings(ss).push(s@));
}

/// The elementwise view of the prototype table.
pub open spec fn view_chunks(cs: Seq<LuauChunk>) -> Seq<SpecChunk> {
    cs.map_values(|c: LuauChunk| c@)
}

/// Appending a chunk and taking the view commute.
pub proof fn lemma_view_chunks_push(cs: Seq<LuauChunk>, c: LuauChunk)
    ensures
        view_chunks(cs.push(c)) == view_chunks(cs).push(c@),
{
    assert(view_chunks(cs.push(c)) =~= view_chunks(cs).push(c@));
}

/// The decoder state: an immutable buffer, a monotonically advancing read
/// position, and the string table decoded so far. One instance decodes one
/// buffer; nothing is shared across decodes. The prototype table grows
/// inside `deserialize` and is handed out whole as part of its result.
pub struct Deserializer {
    buffer: Vec<u8>,
    read_position: usize,
    nested_strings: Vec<Vec<u8>>,
}

impl Deserializer {
    /// The bytes being decoded.
    pub closed spec fn bytes(self) -> Seq<u8> {
        self.buffer@
    }

    /// The current read position.
    pub closed spec fn pos(self) -> int {
        self.read_position as int
    }

    /// The string table decoded so far.
    pub closed spec fn strings(self) -> Seq<Seq<u8>> {
        view_strings(self.nested_strings@)
    }

    /// The cursor never stands past the end of the buffer.
    pub closed spec fn inv(self) -> bool {
        self.read_position <= self.buffer@.len()
    }

    /// A decoder that has consumed nothing yet: the state `with_buffer`
    /// hands out and `deserialize` starts from.
    pub open spec fn at_start(self) -> bool {
        self.pos() == 0 && self.strings() == Seq::<Seq<u8>>::empty()
    }

    /// Wraps a buffer in a fresh decoder.
    pub fn with_buffer(buffer: Vec<u8>) -> (r: Deserializer)
        ensures
            r.inv(),
            r.at_start(),
            r.bytes() == buffer@,
    {
        let r = Deserializer { buffer, read_position: 0, nested_strings: Vec::new() };
        proof {
            assert(r.strings() =~= Seq::<Seq<u8>>::empty());
        }
        r
    }

    /// How many bytes have been consumed so far.
    pub fn position(&self) -> (r: usize)
        ensures
            r == self.pos(),
    {
        self.read_position
    }

    /// Reads one byte.
    fn read_u8(&mut self) -> (r: Result<u8, DecodeError>)
        requires
            old(self).inv(),
        ensures
            final(self).inv(),
            final(self).bytes() == old(self).bytes(),
            final(self).strings() == old(self).strings(),
            old(self).pos() <= final(self).pos() <= final(self).bytes().len(),
            match (r, spec_u8(old(self).bytes(), old(self).pos())) {
                (Ok(v), Ok((sv, sp))) => v == sv && final(self).pos() == sp,
                (Err(e), Err(se)) => e@ == se,
                _ => false,
            },
    {
        if self.read_position < self.buffer.len() {
            let v = self.buffer[self.read_position];
            self.read_position = self.read_position + 1;
            Ok(v)
        } else {
            Err(DecodeError::UnexpectedEof)
        }
    }

    /// Reads a little-endian 32-bit word.
    fn read_u32(&mut self) -> (r: Result<u32, DecodeError>)
        requires
            old(self).inv(),
        ensures
            final(self).inv(),
            final(self).bytes() == old(self).bytes(),
            final(self).strings() == old(self).strings(),
            old(self).pos() <= final(self).pos() <= final(self).bytes().len(),
            match (r, spec_u32(old(self).bytes(), old(self).pos())) {
                (Ok(v), Ok((sv, sp))) => v == sv && final(self).pos() == sp,
                (Err(e), Err(se)) => e@ == se,
                _ => false,
            },
    {
        if self.buffer.len() - self.read_position >= 4 {
            let p = self.read_position;
            let v = (self.buffer[p] as u32) + (self.buffer[p + 1] as u32) * 0x100 + (self.buffer[p
                + 2] as u32) * 0x10000 + (self.buffer[p + 3] as u32) * 0x1000000;
            self.read_position = p + 4;
            Ok(v)
        } else {
            Err(DecodeError::UnexpectedEof)
        }
    }

    /// Reads the eight little-endian bytes of a numeric literal as its
    /// 64-bit bit pattern.
    fn read_u64(&mut self) -> (r: Result<u64, DecodeError>)
        requires
            old(self).inv(),
        ensures
            final(self).inv(),
            final(self).bytes() == old(self).bytes(),
            final(self).strings() == old(self).strings(),
            old(self).pos() <= final(self).pos() <= final(self).bytes().len(),
            match (r, spec_u64(old(self).bytes(), old(self).pos())) {
                (Ok(v), Ok((sv, sp))) => v == sv && final(self).pos() == sp,
                (Err(e), Err(se)) => e@ == se,
                _ => false,
            },
    {
        if self.buffer.len() - self.read_position >= 8 {
            let p = self.read_position;
            let v = (self.buffer[p] as u64) + (self.buffer[p + 1] as u64) * 0x100 + (self.buffer[p
                + 2] as u64) * 0x10000 + (self.buffer[p + 3] as u64) * 0x1000000 + (self.buffer[p
                + 4] as u64) * 0x100000000 + (self.buffer[p + 5] as u64) * 0x10000000000
                + (self.buffer[p + 6] as u64) * 0x1000000000000 + (self.buffer[p + 7] as u64)
                * 0x100000000000000;
            self.read_position = p + 8;
            Ok(v)
        } else {
            Err(DecodeError::UnexpectedEof)
        }
    }

    /// Reads `n` raw bytes verbatim.
    fn read_bytes(&mut self, n: usize) -> (r: Result<Vec<u8>, DecodeError>)
        requires
            old(self).inv(),
        ensures
            final(self).inv(),
            final(self).bytes() == old(self).bytes(),
            final(self).strings() == old(self).strings(),
            old(self).pos() <= final(self).pos() <= final(self).bytes().len(),
            match (r, spec_bytes(old(self).bytes(), old(self).pos(), n as int)) {
                (Ok(v), Ok((sv, sp))) => v@ == sv && final(self).pos() == sp,
                (Err(e), Err(se)) => e@ == se,
                _ => false,
            },
    {
        if self.buffer.len() - self.read_position >= n {
            let p = self.read_position;
            let len = self.buffer.len();
            let mut out: Vec<u8> = Vec::new();
            let mut i: usize = 0;
            while i < n
                invariant
                    self == old(self),
                    self.inv(),
                    i <= n,
                    p == old(self).read_position,
                    len == self.buffer@.len(),
                    p + n <= len,
                    out@ == self.buffer@.subrange(p as int, p + i),
                decreases n - i,
            {
                out.push(self.buffer[p + i]);
                i = i + 1;
                proof {
                    assert(out@ =~= self.buffer@.subrange(p as int, p + i));
                }
            }
            self.read_position = p + n;
            Ok(out)
        } else {
            Err(DecodeError::UnexpectedEof)
        }
    }

    /// Decodes one variable-length compressed integer. Bytes with their
    /// high bit clear continue the value, the first byte with its high bit
    /// set ends it, and at most 5 bytes are accepted.
    pub fn read_compressed_int(&mut self) -> (r: Result<u32, DecodeError>)
        requires
            old(self).inv(),
        ensures
            final(self).inv(),
            final(self).bytes() == old(self).bytes(),
            final(self).strings() == old(self).strings(),
            old(self).pos() <= final(self).pos() <= final(self).bytes().len(),
            match (r, spec_cint(old(self).bytes(), old(self).pos())) {
                (Ok(v), Ok((sv, sp))) => v == sv && final(self).pos() == sp,
                (Err(e), Err(se)) => e@ == se,
                _ => false,
            },
    {
        let mut acc: u64 = 0;
        let mut factor: u64 = 1;
        let mut k: u8 = 0;
        while k < 5
            invariant
                self.inv(),
                self.bytes() == old(self).bytes(),
                self.strings() == old(self).strings(),
                old(self).pos() <= self.pos(),
                k <= 5,
                factor == spec_base128_weight(k as nat),
                factor <= 0x800000000,
                acc < factor,
                spec_cint(old(self).bytes(), old(self).pos()) == spec_cint_rec(
                    old(self).bytes(),
                    self.pos(),
                    k as nat,
                    acc as nat,
                ),
            decreases 5 - k,
        {
            proof {
                reveal_with_fuel(spec_base128_weight, 6);
                assert(factor <= 0x10000000);
            }
            let byte = match self.read_u8() {
                Ok(v) => v,
                Err(e) => {
                    return Err(e);
                },
            };
            let low = (byte % 0x80) as u64;
            proof {
                assert(low * factor <= 127 * 0x10000000) by (nonlinear_arith)
                    requires
                        low <= 127,
                        factor <= 0x10000000,
                ;
                assert(acc + low * factor < 128 * factor) by (nonlinear_arith)
                    requires
                        acc < factor,
                        low <= 127,
                        0 < factor,
                ;
            }
            let acc2 = acc + low * factor;
            if byte >= 0x80 {
                let v = (acc2 % 0x100000000) as u32;
                return Ok(v);
            }
            proof {
                reveal_with_fuel(spec_base128_weight, 6);
                assert(spec_base128_weight((k + 1) as nat) == 128 * spec_base128_weight(k as nat));
            }
            acc = acc2;
            factor = factor * 128;
            k = k + 1;
        }
        Err(DecodeError::MalformedVarint)
    }

    /// Reads one string: a compressed-integer length prefix followed by that
    /// many raw bytes, copied verbatim.
    pub fn read_string(&mut self) -> (r: Result<Vec<u8>, DecodeError>)
        requires
            old(self).inv(),
        ensures
            final(self).inv(),
            final(self).bytes() == old(self).bytes(),
            final(self).strings() == old(self).strings(),
            old(self).pos() <= final(self).pos() <= final(self).bytes().len(),
            match (r, spec_string(old(self).bytes(), old(self).pos())) {
                (Ok(v), Ok((sv, sp))) => v@ == sv && final(self).pos() == sp,
                (Err(e), Err(se)) => e@ == se,
                _ => false,
            },
    {
        let n = match self.read_compressed_int() {
            Ok(v) => v,
            Err(e) => {
                return Err(e);
            },
        };
        self.read_bytes(n as usize)
    }

    /// Reads `n` instruction words.
    fn read_instructions(&mut self, n: u32) -> (r: Result<Vec<Instruction>, DecodeError>)
        requires
            old(self).inv(),
        ensures
            final(self).inv(),
            final(self).bytes() == old(self).bytes(),
            final(self).strings() == old(self).strings(),
            old(self).pos() <= final(self).pos() <= final(self).bytes().len(),
            match (r, spec_words(old(self).bytes(), old(self).pos(), n as nat, Seq::empty())) {
                (Ok(v), Ok((sv, sp))) => view_words(v@) == sv && final(self).pos() == sp,
                (Err(e), Err(se)) => e@ == se,
                _ => false,
            },
    {
        let mut out: Vec<Instruction> = Vec::new();
        let mut i: u32 = 0;
        proof {
            assert(view_words(out@) =~= Seq::<u32>::empty());
        }
        while i < n
            invariant
                self.inv(),
                self.bytes() == old(self).bytes(),
                self.strings() == old(self).strings(),
                old(self).pos() <= self.pos(),
                i <= n,
                spec_words(old(self).bytes(), old(self).pos(), n as nat, Seq::empty())
                    == spec_words(
                    old(self).bytes(),
                    self.pos(),
                    (n - i) as nat,
                    view_words(out@),
                ),
            decreases n - i,
        {
            let w = match self.read_u32() {
                Ok(v) => v,
                Err(e) => {
                    return Err(e);
                },
            };
            let ghost prev = out@;
            out.push(Instruction(w));
            proof {
                lemma_view_words_push(prev, Instruction(w));
            }
            i = i + 1;
        }
        Ok(out)
    }

    /// Reads `n` absolute line records.
    fn read_line_words(&mut self, n: u32) -> (r: Result<Vec<u32>, DecodeError>)
        requires
            old(self).inv(),
        ensures
            final(self).inv(),
            final(self).bytes() == old(self).bytes(),
            final(self).strings() == old(self).strings(),
            old(self).pos() <= final(self).pos() <= final(self).bytes().len(),
            match (r, spec_words(old(self).bytes(), old(self).pos(), n as nat, Seq::empty())) {
                (Ok(v), Ok((sv, sp))) => v@ == sv && final(self).pos() == sp,
                (Err(e), Err(se)) => e@ == se,
                _ => false,
            },
    {
        let mut out: Vec<u32> = Vec::new();
        let mut i: u32 = 0;
        while i < n
            invariant
                self.inv(),
                self.bytes() == old(self).bytes(),
                self.strings() == old(self).strings(),
                old(self).pos() <= self.pos(),
                i <= n,
                spec_words(old(self).bytes(), old(self).pos(), n as nat, Seq::empty())
                    == spec_words(old(self).bytes(), self.pos(), (n - i) as nat, out@),
            decreases n - i,
        {
            let w = match self.read_u32() {
                Ok(v) => v,
                Err(e) => {
                    return Err(e);
                },
            };
            out.push(w);
            i = i + 1;
        }
        Ok(out)
    }

    /// Reads the `n` pool references of a table constant.
    fn read_table_values(&mut self, n: u32) -> (r: Result<Vec<Value>, DecodeError>)
        requires
            old(self).inv(),
        ensures
            final(self).inv(),
            final(self).bytes() == old(self).bytes(),
            final(self).strings() == old(self).strings(),
            old(self).pos() <= final(self).pos() <= final(self).bytes().len(),
            match (
                r,
                spec_table_values(old(self).bytes(), old(self).pos(), n as nat, Seq::empty()),
            ) {
                (Ok(v), Ok((sv, sp))) => view_values(v@) == sv && final(self).pos() == sp,
                (Err(e), Err(se)) => e@ == se,
                _ => false,
            },
    {
        let mut out: Vec<Value> = Vec::new();
        let mut i: u32 = 0;
        proof {
            assert(view_values(out@) =~= Seq::<crate::bytecode::SpecValue>::empty());
        }
        while i < n
            invariant
                self.inv(),
                self.bytes() == old(self).bytes(),
                self.strings() == old(self).strings(),
                old(self).pos() <= self.pos(),
                i <= n,
                spec_table_values(old(self).bytes(), old(self).pos(), n as nat, Seq::empty())
                    == spec_table_values(
                    old(self).bytes(),
                    self.pos(),
                    (n - i) as nat,
                    view_values(out@),
                ),
            decreases n - i,
        {
            let idx = match self.read_compressed_int() {
                Ok(v) => v,
                Err(e) => {
                    return Err(e);
                },
            };
            let ghost prev = out@;
            out.push(Value::ConstantIndex(idx as usize));
            proof {
                lemma_view_values_push(prev, Value::ConstantIndex(idx as usize));
            }
            i = i + 1;
        }
        Ok(out)
    }

    /// Reads the `n` child-function references of a prototype, each of which
    /// must resolve to a prototype already in the table.
    fn read_child_refs(&mut self, n: u32, bound: usize) -> (r: Result<Vec<usize>, DecodeError>)
        requires
            old(self).inv(),
        ensures
            final(self).inv(),
            final(self).bytes() == old(self).bytes(),
            final(self).strings() == old(self).strings(),
            old(self).pos() <= final(self).pos() <= final(self).bytes().len(),
            match (
                r,
                spec_child_refs(
                    old(self).bytes(),
                    old(self).pos(),
                    n as nat,
                    bound as nat,
                    Seq::empty(),
                ),
            ) {
                (Ok(v), Ok((sv, sp))) => view_indices(v@) == sv && final(self).pos() == sp,
                (Err(e), Err(se)) => e@ == se,
                _ => false,
            },
    {
        let mut out: Vec<usize> = Vec::new();
        let mut i: u32 = 0;
        proof {
            assert(view_indices(out@) =~= Seq::<int>::empty());
        }
        while i < n
            invariant
                self.inv(),
                self.bytes() == old(self).bytes(),
                self.strings() == old(self).strings(),
                old(self).pos() <= self.pos(),
                i <= n,
                spec_child_refs(
                    old(self).bytes(),
                    old(self).pos(),
                    n as nat,
                    bound as nat,
                    Seq::empty(),
                ) == spec_child_refs(
                    old(self).bytes(),
                    self.pos(),
                    (n - i) as nat,
                    bound as nat,
                    view_indices(out@),
                ),
            decreases n - i,
        {
            let idx = match self.read_compressed_int() {
                Ok(v) => v,
                Err(e) => {
                    return Err(e);
                },
            };
            if (idx as usize) < bound {
                let ghost prev = out@;
                out.push(idx as usize);
                proof {
                    lemma_view_indices_push(prev, idx as usize);
                }
                i = i + 1;
            } else {
                return Err(DecodeError::UnresolvedProtoIndex);
            }
        }
        Ok(out)
    }

    /// Reads one tagged constant-pool record. An import record (whose four
    /// payload bytes the representation does not need) yields no constant
    /// and only advances the cursor.
    fn read_constant(&mut self) -> (r: Result<Option<Constant>, DecodeError>)
        requires
            old(self).inv(),
        ensures
            final(self).inv(),
            final(self).bytes() == old(self).bytes(),
            final(self).strings() == old(self).strings(),
            old(self).pos() <= final(self).pos() <= final(self).bytes().len(),
            match (r, spec_constant(old(self).bytes(), old(self).pos(), old(self).strings())) {
                (Ok(v), Ok((sv, sp))) => final(self).pos() == sp && (match (v, sv) {
                    (Some(c), Some(sc)) => c@ == sc,
                    (None, None) => true,
                    _ => false,
                }),
                (Err(e), Err(se)) => e@ == se,
                _ => false,
            },
    {
        let tag = match self.read_u8() {
            Ok(v) => v,
            Err(e) => {
                return Err(e);
            },
        };
        if tag == 0 {
            Ok(Some(Constant::Nil))
        } else if tag == 1 {
            match self.read_u8() {
                Ok(v) => Ok(Some(Constant::Boolean(v != 0))),
                Err(e) => Err(e),
            }
        } else if tag == 2 {
            match self.read_u64() {
                Ok(bits) => Ok(Some(Constant::Number(bits))),
                Err(e) => Err(e),
            }
        } else if tag == 3 {
            let i = match self.read_compressed_int() {
                Ok(v) => v,
                Err(e) => {
                    return Err(e);
                },
            };
            if 1 <= i && (i as usize) <= self.nested_strings.len() {
                let s = copy_bytes(&self.nested_strings[(i as usize) - 1]);
                Ok(Some(Constant::Str(s)))
            } else {
                Err(DecodeError::InvalidStringIndex)
            }
        } else if tag == 4 {
            if self.buffer.len() - self.read_position >= 4 {
                self.read_position = self.read_position + 4;
                Ok(None)
            } else {
                Err(DecodeError::UnexpectedEof)
            }
        } else if tag == 5 {
            let n = match self.read_compressed_int() {
                Ok(v) => v,
                Err(e) => {
                    return Err(e);
                },
            };
            match self.read_table_values(n) {
                Ok(vs) => Ok(Some(Constant::Table(vs))),
                Err(e) => Err(e),
            }
        } else if tag == 6 {
            Err(DecodeError::UnsupportedFeature(Feature::ClosureConstant))
        } else {
            Err(DecodeError::UnknownConstantTag(tag))
        }
    }

    /// Reads the `n` records of a constant pool.
    fn read_constants(&mut self, n: u32) -> (r: Result<Vec<Constant>, DecodeError>)
        requires
            old(self).inv(),
        ensures
            final(self).inv(),
            final(self).bytes() == old(self).bytes(),
            final(self).strings() == old(self).strings(),
            old(self).pos() <= final(self).pos() <= final(self).bytes().len(),
            match (
                r,
                spec_constants(
                    old(self).bytes(),
                    old(self).pos(),
                    n as nat,
                    old(self).strings(),
                    Seq::empty(),
                ),
            ) {
                (Ok(v), Ok((sv, sp))) => view_constants(v@) == sv && final(self).pos() == sp,
                (Err(e), Err(se)) => e@ == se,
                _ => false,
            },
    {
        let mut out: Vec<Constant> = Vec::new();
        let mut i: u32 = 0;
        proof {
            assert(view_constants(out@) =~= Seq::<crate::bytecode::SpecConstant>::empty());
        }
        while i < n
            invariant
                self.inv(),
                self.bytes() == old(self).bytes(),
                self.strings() == old(self).strings(),
                old(self).pos() <= self.pos(),
                i <= n,
                spec_constants(
                    old(self).bytes(),
                    old(self).pos(),
                    n as nat,
                    old(self).strings(),
                    Seq::empty(),
                ) == spec_constants(
                    old(self).bytes(),
                    self.pos(),
                    (n - i) as nat,
                    old(self).strings(),
                    view_constants(out@),
                ),
            decreases n - i,
        {
            match self.read_constant() {
                Ok(Some(c)) => {
                    let ghost prev = out@;
                    out.push(c);
                    proof {
                        lemma_view_constants_push(prev, out@[prev.len() as int]);
                    }
                },
                Ok(None) => {},
                Err(e) => {
                    return Err(e);
                },
            }
            i = i + 1;
        }
        Ok(out)
    }

    /// Reads the optional line-information block: a presence flag, a
    /// compression-shift byte, a skipped per-instruction delta block, and
    /// the derived count of absolute line records.
    fn read_line_info(&mut self, ninstr: u32) -> (r: Result<Option<Vec<u32>>, DecodeError>)
        requires
            old(self).inv(),
        ensures
            final(self).inv(),
            final(self).bytes() == old(self).bytes(),
            final(self).strings() == old(self).strings(),
            old(self).pos() <= final(self).pos() <= final(self).bytes().len(),
            match (r, spec_line_info(old(self).bytes(), old(self).pos(), ninstr)) {
                (Ok(v), Ok((sv, sp))) => final(self).pos() == sp && (match (v, sv) {
                    (Some(l), Some(sl)) => l@ == sl,
                    (None, None) => true,
                    _ => false,
                }),
                (Err(e), Err(se)) => e@ == se,
                _ => false,
            },
    {
        let flag = match self.read_u8() {
            Ok(v) => v,
            Err(e) => {
                return Err(e);
            },
        };
        if flag == 0 {
            return Ok(None);
        }
        let shift = match self.read_u8() {
            Ok(v) => v,
            Err(e) => {
                return Err(e);
            },
        };
        if self.buffer.len() - self.read_position >= ninstr as usize {
            self.read_position = self.read_position + ninstr as usize;
        } else {
            return Err(DecodeError::UnexpectedEof);
        }
        let count: u32 = if ninstr == 0 {
            0
        } else if shift >= 32 {
            1
        } else {
            proof {
                let x = (ninstr - 1) as u32;
                assert(x >> shift <= x) by (bit_vector);
            }
            ((ninstr - 1) >> shift) + 1
        };
        proof {
            assert(count as nat == spec_line_entry_count(ninstr, shift));
        }
        match self.read_line_words(count) {
            Ok(words) => Ok(Some(words)),
            Err(e) => Err(e),
        }
    }

    /// Decodes one function prototype, in the format's fixed field order.
    /// Its child references may only reach prototypes already in the table.
    fn read_proto(&mut self, bound: usize) -> (r: Result<LuauChunk, DecodeError>)
        requires
            old(self).inv(),
        ensures
            final(self).inv(),
            final(self).bytes() == old(self).bytes(),
            final(self).strings() == old(self).strings(),
            old(self).pos() <= final(self).pos() <= final(self).bytes().len(),
            match (
                r,
                spec_proto(
                    old(self).bytes(),
                    old(self).pos(),
                    old(self).strings(),
                    bound as nat,
                ),
            ) {
                (Ok(c), Ok((sc, sp))) => c@ == sc && final(self).pos() == sp,
                (Err(e), Err(se)) => e@ == se,
                _ => false,
            },
    {
        let max_stack_size = match self.read_u8() {
            Ok(v) => v,
            Err(e) => {
                return Err(e);
            },
        };
        let num_params = match self.read_u8() {
            Ok(v) => v,
            Err(e) => {
                return Err(e);
            },
        };
        let num_upvalues = match self.read_u8() {
            Ok(v) => v,
            Err(e) => {
                return Err(e);
            },
        };
        let flag = match self.read_u8() {
            Ok(v) => v,
            Err(e) => {
                return Err(e);
            },
        };
        let vararg_kind = if flag == 1 {
            Vararg::HasArg
        } else if flag == 2 {
            Vararg::IsVararg
        } else if flag == 4 {
            Vararg::NeedsArg
        } else {
            return Err(DecodeError::InvalidVarargFlag);
        };
        let ninstr = match self.read_compressed_int() {
            Ok(v) => v,
            Err(e) => {
                return Err(e);
            },
        };
        let instructions = match self.read_instructions(ninstr) {
            Ok(v) => v,
            Err(e) => {
                return Err(e);
            },
        };
        let nconst = match self.read_compressed_int() {
            Ok(v) => v,
            Err(e) => {
                return Err(e);
            },
        };
        let constants = match self.read_constants(nconst) {
            Ok(v) => v,
            Err(e) => {
                return Err(e);
            },
        };
        let nchild = match self.read_compressed_int() {
            Ok(v) => v,
            Err(e) => {
                return Err(e);
            },
        };
        let child_functions = match self.read_child_refs(nchild, bound) {
            Ok(v) => v,
            Err(e) => {
                return Err(e);
            },
        };
        let name_idx = match self.read_compressed_int() {
            Ok(v) => v,
            Err(e) => {
                return Err(e);
            },
        };
        let name = if name_idx == 0 {
            None
        } else if (name_idx as usize) <= self.nested_strings.len() {
            Some(copy_bytes(&self.nested_strings[(name_idx as usize) - 1]))
        } else {
            return Err(DecodeError::InvalidStringIndex);
        };
        let line_info = match self.read_line_info(ninstr) {
            Ok(v) => v,
            Err(e) => {
                return Err(e);
            },
        };
        let debug_flag = match self.read_u8() {
            Ok(v) => v,
            Err(e) => {
                return Err(e);
            },
        };
        if debug_flag != 0 {
            return Err(DecodeError::UnsupportedFeature(Feature::DebugInfo));
        }
        Ok(
            LuauChunk {
                max_stack_size,
                num_params,
                num_upvalues,
                vararg_kind,
                instructions,
                constants,
                child_functions,
                name,
                line_info,
            },
        )
    }

    /// Runs the whole decode: the version byte, the string table, the
    /// prototype table in stream order, and the main-chunk selector,
    /// returning the whole prototype table together with the selector, so
    /// the main chunk and, transitively, every chunk it references stay
    /// reachable. The result is exactly what the model function
    /// [`spec_deserialize`] assigns to the buffer, so identical input bytes
    /// always yield a structurally identical result.
    pub fn deserialize(&mut self) -> (r: Result<ChunkTree, DecodeError>)
        requires
            old(self).inv(),
            old(self).at_start(),
        ensures
            final(self).inv(),
            final(self).bytes() == old(self).bytes(),
            old(self).pos() <= final(self).pos() <= final(self).bytes().len(),
            match (r, spec_deserialize(old(self).bytes())) {
                (Ok(t), Ok((sprotos, smain))) => view_chunks(t.protos@) == sprotos && t.main
                    as int == smain && t.main < t.protos@.len(),
                (Err(e), Err(se)) => e@ == se,
                _ => false,
            },
    {
        let version = match self.read_u8() {
            Ok(v) => v,
            Err(e) => {
                return Err(e);
            },
        };
        if version == 0 {
            let n = self.buffer.len() - 1;
            match self.read_bytes(n) {
                Ok(msg) => {
                    return Err(DecodeError::CompilerError(msg));
                },
                Err(e) => {
                    return Err(e);
                },
            }
        }
        if version < 3 {
            return Err(DecodeError::InvalidVersion);
        }
        let nstr = match self.read_compressed_int() {
            Ok(v) => v,
            Err(e) => {
                return Err(e);
            },
        };
        let ghost p2 = self.pos();
        let mut i: u32 = 0;
        while i < nstr
            invariant
                self.inv(),
                self.bytes() == old(self).bytes(),
                old(self).pos() <= self.pos(),
                i <= nstr,
                old(self).at_start(),
                spec_u8(old(self).bytes(), 0) == Ok::<(u8, int), SpecError>((version, 1)),
                version >= 3,
                spec_cint(old(self).bytes(), 1) == Ok::<(u32, int), SpecError>((nstr, p2)),
                spec_strings(old(self).bytes(), p2, nstr as nat, Seq::empty()) == spec_strings(
                    old(self).bytes(),
                    self.pos(),
                    (nstr - i) as nat,
                    self.strings(),
                ),
            decreases nstr - i,
        {
            let s = match self.read_string() {
                Ok(v) => v,
                Err(e) => {
                    return Err(e);
                },
            };
            let ghost prev = self.nested_strings@;
            self.nested_strings.push(s);
            proof {
                lemma_view_strings_push(prev, self.nested_strings@[prev.len() as int]);
            }
            i = i + 1;
        }
        let ghost p3 = self.pos();
        let nproto = match self.read_compressed_int() {
            Ok(v) => v,
            Err(e) => {
                return Err(e);
            },
        };
        let ghost strs = self.strings();
        let ghost p4 = self.pos();
        let mut protos: Vec<LuauChunk> = Vec::new();
        proof {
            assert(view_chunks(protos@) =~= Seq::<SpecChunk>::empty());
        }
        let mut j: u32 = 0;
        while j < nproto
            invariant
                self.inv(),
                self.bytes() == old(self).bytes(),
                self.strings() == strs,
                old(self).pos() <= self.pos(),
                j <= nproto,
                old(self).at_start(),
                spec_u8(old(self).bytes(), 0) == Ok::<(u8, int), SpecError>((version, 1)),
                version >= 3,
                spec_cint(old(self).bytes(), 1) == Ok::<(u32, int), SpecError>((nstr, p2)),
                spec_strings(old(self).bytes(), p2, nstr as nat, Seq::empty()) == Ok::<
                    (Seq<Seq<u8>>, int),
                    SpecError,
                >((strs, p3)),
                spec_cint(old(self).bytes(), p3) == Ok::<(u32, int), SpecError>((nproto, p4)),
                spec_protos(old(self).bytes(), p4, nproto as nat, strs, Seq::empty())
                    == spec_protos(
                    old(self).bytes(),
                    self.pos(),
                    (nproto - j) as nat,
                    strs,
                    view_chunks(protos@),
                ),
            decreases nproto - j,
        {
            let bound = protos.len();
            let c = match self.read_proto(bound) {
                Ok(v) => v,
                Err(e) => {
                    return Err(e);
                },
            };
            let ghost prev = protos@;
            protos.push(c);
            proof {
                lemma_view_chunks_push(prev, protos@[prev.len() as int]);
            }
            j = j + 1;
        }
        let main = match self.read_compressed_int() {
            Ok(v) => v,
            Err(e) => {
                return Err(e);
            },
        };
        if (main as usize) < protos.len() {
            Ok(ChunkTree { protos, main: main as usize })
        } else {
            Err(DecodeError::UnresolvedProtoIndex)
        }
    }
}

/// Copies a byte string out of the string table.
fn copy_bytes(v: &Vec<u8>) -> (r: Vec<u8>)
    ensures
        r@ == v@,
{
    let mut out: Vec<u8> = Vec::new();
    let mut i: usize = 0;
    let len = v.len();
    while i < len
        invariant
            i <= len,
            len == v@.len(),
            out@ == v@.subrange(0, i as int),
        decreases len - i,
    {
        out.push(v[i]);
        i = i + 1;
        proof {
            assert(out@ =~= v@.subrange(0, i as int));
        }
    }
    proof {
        assert(out@ =~= v@);
    }
    out
}

} // verus!
