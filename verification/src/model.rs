//! The mathematical model of the wire format.
//!
//! Every decoding step is a function from the byte sequence and a read
//! position to either the decoded value and the position just past it, or
//! the failure. The executable decoder is proved to return exactly what
//! these functions say, so the whole decode is a function of the input
//! bytes alone.

use vstd::prelude::*;
use crate::bytecode::{SpecChunk, SpecConstant, SpecValue, Vararg};
use crate::error::{Feature, SpecError};

verus! {

/// One decoding step: on success the decoded value and the position just
/// past it, otherwise the failure that aborts the whole decode.
pub type SpecStep<T> = Result<(T, int), SpecError>;

/// A fixed-width byte read.
pub open spec fn spec_u8(b: Seq<u8>, p: int) -> SpecStep<u8> {
    if 0 <= p && p + 1 <= b.len() {
        Ok((b[p], p + 1))
    } else {
        Err(SpecError::UnexpectedEof)
    }
}

/// The unsigned 32-bit value of the four little-endian bytes at `p`.
pub open spec fn spec_le32(b: Seq<u8>, p: int) -> u32 {
    (b[p] + b[p + 1] * 0x100 + b[p + 2] * 0x10000 + b[p + 3] * 0x1000000) as u32
}

/// A fixed-width little-endian 32-bit read.
pub open spec fn spec_u32(b: Seq<u8>, p: int) -> SpecStep<u32> {
    if 0 <= p && p + 4 <= b.len() {
        Ok((spec_le32(b, p), p + 4))
    } else {
        Err(SpecError::UnexpectedEof)
    }
}

/// The unsigned 64-bit value of the eight little-endian bytes at `p`: the
/// bit pattern of a wire numeric literal.
pub open spec fn spec_le64(b: Seq<u8>, p: int) -> u64 {
    (b[p] + b[p + 1] * 0x100 + b[p + 2] * 0x10000 + b[p + 3] * 0x1000000 + b[p + 4] * 0x100000000
        + b[p + 5] * 0x10000000000 + b[p + 6] * 0x1000000000000 + b[p + 7]
        * 0x100000000000000) as u64
}

/// A fixed-width little-endian 64-bit read.
pub open spec fn spec_u64(b: Seq<u8>, p: int) -> SpecStep<u64> {
    if 0 <= p && p + 8 <= b.len() {
        Ok((spec_le64(b, p), p + 8))
    } else {
        Err(SpecError::UnexpectedEof)
    }
}

/// A verbatim read of `n` raw bytes.
pub open spec fn spec_bytes(b: Seq<u8>, p: int, n: int) -> SpecStep<Seq<u8>> {
    if 0 <= p && p + n <= b.len() {
        Ok((b.subrange(p, p + n), p + n))
    } else {
        Err(SpecError::UnexpectedEof)
    }
}

/// The place value of the `k`-th byte of a compressed integer: each byte
/// contributes its low 7 bits at bit offset `7 * k`.
pub open spec fn spec_base128_weight(k: nat) -> nat
    decreases k,
{
    if k == 0 {
        1
    } else {
        128 * spec_base128_weight((k - 1) as nat)
    }
}

/// The tail of a compressed-integer decode, `k` bytes already folded into
/// `acc`. A byte with its high bit clear continues the loop, one with its
/// high bit set terminates it — the inverse of the conventional
/// variable-length convention. At most 5 bytes may make up one value (enough
/// for a 32-bit result); a sixth continuation byte is malformed, which keeps
/// decoding bounded on adversarial input. The result is the accumulated sum
/// reduced to 32 bits.
pub open spec fn spec_cint_rec(b: Seq<u8>, p: int, k: nat, acc: nat) -> SpecStep<u32>
    decreases 5 - k,
{
    if k >= 5 {
        Err(SpecError::MalformedVarint)
    } else {
        match spec_u8(b, p) {
            Err(e) => Err(e),
            Ok((byte, p1)) => {
                let acc2 = acc + ((byte as nat) % 0x80) * spec_base128_weight(k);
                if byte >= 0x80 {
                    Ok((((acc2 % 0x100000000) as u32, p1)))
                } else {
                    spec_cint_rec(b, p1, k + 1, acc2)
                }
            },
        }
    }
}

/// A compressed-integer read from position `p`.
pub open spec fn spec_cint(b: Seq<u8>, p: int) -> SpecStep<u32> {
    spec_cint_rec(b, p, 0, 0)
}

/// A string read: a compressed-integer length prefix followed by that many
/// raw bytes, copied verbatim.
pub open spec fn spec_string(b: Seq<u8>, p: int) -> SpecStep<Seq<u8>> {
    match spec_cint(b, p) {
        Err(e) => Err(e),
        Ok((n, p1)) => spec_bytes(b, p1, n as int),
    }
}

/// `n` consecutive string reads appended to `acc`: the string table.
pub open spec fn spec_strings(b: Seq<u8>, p: int, n: nat, acc: Seq<Seq<u8>>) -> SpecStep<
    Seq<Seq<u8>>,
>
    decreases n,
{
    if n == 0 {
        Ok((acc, p))
    } else {
        match spec_string(b, p) {
            Err(e) => Err(e),
            Ok((s, p1)) => spec_strings(b, p1, (n - 1) as nat, acc.push(s)),
        }
    }
}

/// `n` consecutive little-endian 32-bit reads appended to `acc`: instruction
/// words, or absolute line-information records.
pub open spec fn spec_words(b: Seq<u8>, p: int, n: nat, acc: Seq<u32>) -> SpecStep<Seq<u32>>
    decreases n,
{
    if n == 0 {
        Ok((acc, p))
    } else {
        match spec_u32(b, p) {
            Err(e) => Err(e),
            Ok((w, p1)) => spec_words(b, p1, (n - 1) as nat, acc.push(w)),
        }
    }
}

/// `n` compressed-integer reads appended to `acc` as table-constant entries:
/// references into the enclosing constant pool.
pub open spec fn spec_table_values(b: Seq<u8>, p: int, n: nat, acc: Seq<SpecValue>) -> SpecStep<
    Seq<SpecValue>,
>
    decreases n,
{
    if n == 0 {
        Ok((acc, p))
    } else {
        match spec_cint(b, p) {
            Err(e) => Err(e),
            Ok((i, p1)) => spec_table_values(
                b,
                p1,
                (n - 1) as nat,
                acc.push(SpecValue::ConstantIndex(i as int)),
            ),
        }
    }
}

/// `n` compressed-integer reads appended to `acc` as child-function
/// references. Each must resolve within the `bound` prototypes decoded so
/// far; one that does not is an unresolved reference.
pub open spec fn spec_child_refs(b: Seq<u8>, p: int, n: nat, bound: nat, acc: Seq<int>) -> SpecStep<
    Seq<int>,
>
    decreases n,
{
    if n == 0 {
        Ok((acc, p))
    } else {
        match spec_cint(b, p) {
            Err(e) => Err(e),
            Ok((i, p1)) => if (i as nat) < bound {
                spec_child_refs(b, p1, (n - 1) as nat, bound, acc.push(i as int))
            } else {
                Err(SpecError::UnresolvedProtoIndex)
            },
        }
    }
}

/// One tagged constant-pool record. A record either yields a constant, or —
/// for the import-metadata tag, whose four payload bytes the representation
/// does not need — yields nothing and only advances the position.
pub open spec fn spec_constant(b: Seq<u8>, p: int, strings: Seq<Seq<u8>>) -> SpecStep<
    Option<SpecConstant>,
> {
    match spec_u8(b, p) {
        Err(e) => Err(e),
        Ok((tag, p1)) => {
            if tag == 0 {
                Ok((Some(SpecConstant::Nil), p1))
            } else if tag == 1 {
                match spec_u8(b, p1) {
                    Err(e) => Err(e),
                    Ok((v, p2)) => Ok((Some(SpecConstant::Boolean(v != 0)), p2)),
                }
            } else if tag == 2 {
                match spec_u64(b, p1) {
                    Err(e) => Err(e),
                    Ok((bits, p2)) => Ok((Some(SpecConstant::Number(bits)), p2)),
                }
            } else if tag == 3 {
                match spec_cint(b, p1) {
                    Err(e) => Err(e),
                    Ok((i, p2)) => if 1 <= i && i <= strings.len() {
                        Ok((Some(SpecConstant::Str(strings[i - 1])), p2))
                    } else {
                        Err(SpecError::InvalidStringIndex)
                    },
                }
            } else if tag == 4 {
                if p1 + 4 <= b.len() {
                    Ok((None, p1 + 4))
                } else {
                    Err(SpecError::UnexpectedEof)
                }
            } else if tag == 5 {
                match spec_cint(b, p1) {
                    Err(e) => Err(e),
                    Ok((n, p2)) => match spec_table_values(b, p2, n as nat, Seq::empty()) {
                        Err(e) => Err(e),
                        Ok((vs, p3)) => Ok((Some(SpecConstant::Table(vs)), p3)),
                    },
                }
            } else if tag == 6 {
                Err(SpecError::UnsupportedFeature(Feature::ClosureConstant))
            } else {
                Err(SpecError::UnknownConstantTag(tag))
            }
        },
    }
}

/// `n` consecutive constant-pool records appended to `acc`: the constant
/// pool. Discarded import records advance the position without appending.
pub open spec fn spec_constants(
    b: Seq<u8>,
    p: int,
    n: nat,
    strings: Seq<Seq<u8>>,
    acc: Seq<SpecConstant>,
) -> SpecStep<Seq<SpecConstant>>
    decreases n,
{
    if n == 0 {
        Ok((acc, p))
    } else {
        match spec_constant(b, p, strings) {
            Err(e) => Err(e),
            Ok((c, p1)) => {
                let acc2 = match c {
                    Some(c) => acc.push(c),
                    None => acc,
                };
                spec_constants(b, p1, (n - 1) as nat, strings, acc2)
            },
        }
    }
}

/// How many absolute line records the line-information block carries for a
/// chunk of `ninstr` instructions under a compression shift of `shift`:
/// `((ninstr - 1) >> shift) + 1` read over the integers, which is 0 for an
/// empty instruction list.
pub open spec fn spec_line_entry_count(ninstr: u32, shift: u8) -> nat {
    if ninstr == 0 {
        0
    } else if shift >= 32 {
        1
    } else {
        ((((ninstr - 1) as u32 >> shift) + 1) as nat)
    }
}

/// The optional line-information block: a presence flag; when set, a
/// compression-shift byte, a skipped per-instruction delta block of
/// `ninstr` bytes, and the derived count of absolute line records.
pub open spec fn spec_line_info(b: Seq<u8>, p: int, ninstr: u32) -> SpecStep<Option<Seq<u32>>> {
    match spec_u8(b, p) {
        Err(e) => Err(e),
        Ok((flag, p1)) => {
            if flag == 0 {
                Ok((None, p1))
            } else {
                match spec_u8(b, p1) {
                    Err(e) => Err(e),
                    Ok((shift, p2)) => {
                        if p2 + ninstr <= b.len() {
                            match spec_words(
                                b,
                                p2 + ninstr,
                                spec_line_entry_count(ninstr, shift),
                                Seq::empty(),
                            ) {
                                Err(e) => Err(e),
                                Ok((entries, p3)) => Ok((Some(entries), p3)),
                            }
                        } else {
                            Err(SpecError::UnexpectedEof)
                        }
                    },
                }
            }
        },
    }
}

/// The vararg kind a wire flag byte stands for; flags other than 1, 2 and 4
/// stand for none.
pub open spec fn spec_vararg(flag: u8) -> Option<Vararg> {
    if flag == 1 {
        Some(Vararg::HasArg)
    } else if flag == 2 {
        Some(Vararg::IsVararg)
    } else if flag == 4 {
        Some(Vararg::NeedsArg)
    } else {
        None
    }
}

/// One function prototype, decoded in fixed order: stack size, parameter
/// and upvalue counts, vararg flag, instruction list, constant pool,
/// child-function references (each resolving within the `bound` prototypes
/// decoded before this one), optional name (a string-table index, 0 meaning
/// unnamed), optional line information, and the debug-information presence
/// flag, whose layout is unsupported and rejected explicitly.
pub open spec fn spec_proto(b: Seq<u8>, p: int, strings: Seq<Seq<u8>>, bound: nat) -> SpecStep<
    SpecChunk,
> {
    match spec_u8(b, p) {
        Err(e) => Err(e),
        Ok((max_stack_size, p1)) => match spec_u8(b, p1) {
            Err(e) => Err(e),
            Ok((num_params, p2)) => match spec_u8(b, p2) {
                Err(e) => Err(e),
                Ok((num_upvalues, p3)) => match spec_u8(b, p3) {
                    Err(e) => Err(e),
                    Ok((flag, p4)) => match spec_vararg(flag) {
                        None => Err(SpecError::InvalidVarargFlag),
                        Some(vararg_kind) => match spec_cint(b, p4) {
                            Err(e) => Err(e),
                            Ok((ninstr, p5)) => match spec_words(
                                b,
                                p5,
                                ninstr as nat,
                                Seq::empty(),
                            ) {
                                Err(e) => Err(e),
                                Ok((instructions, p6)) => match spec_cint(b, p6) {
                                    Err(e) => Err(e),
                                    Ok((nconst, p7)) => match spec_constants(
                                        b,
                                        p7,
                                        nconst as nat,
                                        strings,
                                        Seq::empty(),
                                    ) {
                                        Err(e) => Err(e),
                                        Ok((constants, p8)) => match spec_cint(b, p8) {
                                            Err(e) => Err(e),
                                            Ok((nchild, p9)) => match spec_child_refs(
                                                b,
                                                p9,
                                                nchild as nat,
                                                bound,
                                                Seq::empty(),
                                            ) {
                                                Err(e) => Err(e),
                                                Ok((child_functions, p10)) => match spec_cint(
                                                    b,
                                                    p10,
                                                ) {
                                                    Err(e) => Err(e),
                                                    Ok((name_idx, p11)) => {
                                                        if name_idx != 0 && strings.len()
                                                            < name_idx {
                                                            Err(SpecError::InvalidStringIndex)
                                                        } else {
                                                            let name = if name_idx == 0 {
                                                                None
                                                            } else {
                                                                Some(strings[name_idx - 1])
                                                            };
                                                            match spec_line_info(b, p11, ninstr) {
                                                                Err(e) => Err(e),
                                                                Ok((line_info, p12)) => match
                                                                    spec_u8(b, p12) {
                                                                    Err(e) => Err(e),
                                                                    Ok((debug_flag, p13)) => {
                                                                        if debug_flag != 0 {
                                                                            Err(
                                                                                SpecError::UnsupportedFeature(
                                                                                    Feature::DebugInfo,
                                                                                ),
                                                                            )
                                                                        } else {
                                                                            Ok(
                                                                                (
                                                                                    SpecChunk {
                                                                                        max_stack_size,
                                                                                        num_params,
                                                                                        num_upvalues,
                                                                                        vararg_kind,
                                                                                        instructions,
                                                                                        constants,
                                                                                        child_functions,
                                                                                        name,
                                                                                        line_info,
                                                                                    },
                                                                                    p13,
                                                                                ),
                                                                            )
                                                                        }
                                                                    },
                                                                },
                                                            }
                                                        }
                                                    },
                                                },
                                            },
                                        },
                                    },
                                },
                            },
                        },
                    },
                },
            },
        },
    }
}

/// `n` consecutive prototypes appended to `acc`: the prototype table. Each
/// entry stands at the position equal to its decode order, and its child
/// references may only reach the entries before it.
pub open spec fn spec_protos(
    b: Seq<u8>,
    p: int,
    n: nat,
    strings: Seq<Seq<u8>>,
    acc: Seq<SpecChunk>,
) -> SpecStep<Seq<SpecChunk>>
    decreases n,
{
    if n == 0 {
        Ok((acc, p))
    } else {
        match spec_proto(b, p, strings, acc.len()) {
            Err(e) => Err(e),
            Ok((c, p1)) => spec_protos(b, p1, (n - 1) as nat, strings, acc.push(c)),
        }
    }
}

/// The whole decode, as a function of the input bytes alone: the version
/// byte (0 carries a compiler diagnostic; 1 and 2 are invalid; 3 and above
/// proceed), the string table, the prototype table, and the main-chunk
/// selector, which must resolve within the table. The result is the full
/// prototype table together with the selector, so the main chunk and,
/// transitively, every chunk it references stay reachable.
pub open spec fn spec_deserialize(b: Seq<u8>) -> Result<(Seq<SpecChunk>, int), SpecError> {
    match spec_u8(b, 0) {
        Err(e) => Err(e),
        Ok((version, p1)) => {
            if version == 0 {
                Err(SpecError::CompilerError(b.subrange(1, b.len() as int)))
            } else if version < 3 {
                Err(SpecError::InvalidVersion)
            } else {
                match spec_cint(b, p1) {
                    Err(e) => Err(e),
                    Ok((nstr, p2)) => match spec_strings(b, p2, nstr as nat, Seq::empty()) {
                        Err(e) => Err(e),
                        Ok((strings, p3)) => match spec_cint(b, p3) {
                            Err(e) => Err(e),
                            Ok((nproto, p4)) => match spec_protos(
                                b,
                                p4,
                                nproto as nat,
                                strings,
                                Seq::empty(),
                            ) {
                                Err(e) => Err(e),
                                Ok((protos, p5)) => match spec_cint(b, p5) {
                                    Err(e) => Err(e),
                                    Ok((main, p6)) => {
                                        if (main as int) < protos.len() {
                                            Ok((protos, main as int))
                                        } else {
                                            Err(SpecError::UnresolvedProtoIndex)
                                        }
                                    },
                                },
                            },
                        },
                    },
                }
            }
        },
    }
}

proof fn lemma_child_refs_bounded(b: Seq<u8>, p: int, n: nat, bound: nat, acc: Seq<int>)
    requires
        forall|j: int| 0 <= j < acc.len() ==> 0 <= #[trigger] acc[j] < bound,
    ensures
        (spec_child_refs(b, p, n, bound, acc) matches Ok(r) ==> forall|j: int|
            0 <= j < r.0.len() ==> 0 <= #[trigger] r.0[j] < bound),
    decreases n,
{
    if n != 0 {
        match spec_cint(b, p) {
            Err(_) => {},
            Ok((i, p1)) => {
                if (i as nat) < bound {
                    lemma_child_refs_bounded(b, p1, (n - 1) as nat, bound, acc.push(i as int));
                }
            },
        }
    }
}

proof fn lemma_proto_children_bounded(b: Seq<u8>, p: int, strings: Seq<Seq<u8>>, bound: nat)
    ensures
        (spec_proto(b, p, strings, bound) matches Ok(r) ==> forall|j: int|
            0 <= j < r.0.child_functions.len() ==> 0 <= #[trigger] r.0.child_functions[j]
                < bound),
{
    match spec_u8(b, p) {
        Err(_) => {},
        Ok((_max_stack_size, p1)) => match spec_u8(b, p1) {
            Err(_) => {},
            Ok((_num_params, p2)) => match spec_u8(b, p2) {
                Err(_) => {},
                Ok((_num_upvalues, p3)) => match spec_u8(b, p3) {
                    Err(_) => {},
                    Ok((flag, p4)) => match spec_vararg(flag) {
                        None => {},
                        Some(_vararg_kind) => match spec_cint(b, p4) {
                            Err(_) => {},
                            Ok((ninstr, p5)) => match spec_words(
                                b,
                                p5,
                                ninstr as nat,
                                Seq::empty(),
                            ) {
                                Err(_) => {},
                                Ok((_instructions, p6)) => match spec_cint(b, p6) {
                                    Err(_) => {},
                                    Ok((nconst, p7)) => match spec_constants(
                                        b,
                                        p7,
                                        nconst as nat,
                                        strings,
                                        Seq::empty(),
                                    ) {
                                        Err(_) => {},
                                        Ok((_constants, p8)) => match spec_cint(b, p8) {
                                            Err(_) => {},
                                            Ok((nchild, p9)) => {
                                                lemma_child_refs_bounded(
                                                    b,
                                                    p9,
                                                    nchild as nat,
                                                    bound,
                                                    Seq::empty(),
                                                );
                                            },
                                        },
                                    },
                                },
                            },
                        },
                    },
                },
            },
        },
    }
}

proof fn lemma_protos_bounded(b: Seq<u8>, p: int, n: nat, strings: Seq<Seq<u8>>, acc: Seq<SpecChunk>)
    requires
        forall|i: int, j: int|
            0 <= i < acc.len() && 0 <= j < acc[i].child_functions.len() ==> 0 <= #[trigger] acc[i].child_functions[j] < i,
    ensures
        (spec_protos(b, p, n, strings, acc) matches Ok(r) ==> {
            &&& r.0.len() == acc.len() + n
            &&& forall|i: int, j: int|
                0 <= i < r.0.len() && 0 <= j < r.0[i].child_functions.len() ==> 0 <= #[trigger] r.0[i].child_functions[j] < i
        }),
    decreases n,
{
    if n != 0 {
        match spec_proto(b, p, strings, acc.len()) {
            Err(_) => {},
            Ok((c, p1)) => {
                lemma_proto_children_bounded(b, p, strings, acc.len());
                let acc2 = acc.push(c);
                assert forall|i: int, j: int|
                    0 <= i < acc2.len() && 0 <= j < acc2[i].child_functions.len() implies 0 <= #[trigger] acc2[i].child_functions[j] < i by {
                    if i < acc.len() {
                        assert(acc2[i] == acc[i]);
                    } else {
                        assert(acc2[i] == c);
                    }
                }
                lemma_protos_bounded(b, p1, (n - 1) as nat, strings, acc2);
            },
        }
    }
}

/// Every successfully decoded prototype table has exactly the declared
/// number of entries, and every child-function reference of every entry
/// resolves to an entry decoded strictly earlier — so every reference lies
/// within the table. (The main-chunk selector is checked against the same
/// table by `spec_deserialize`, which rejects an out-of-range selector as
/// an unresolved reference.)
pub proof fn lemma_proto_table_resolves(b: Seq<u8>, p: int, n: nat, strings: Seq<Seq<u8>>)
    ensures
        (spec_protos(b, p, n, strings, Seq::empty()) matches Ok(r) ==> {
            &&& r.0.len() == n
            &&& forall|i: int, j: int|
                0 <= i < r.0.len() && 0 <= j < r.0[i].child_functions.len() ==> 0 <= #[trigger] r.0[i].child_functions[j] < i
        }),
{
    lemma_protos_bounded(b, p, n, strings, Seq::empty());
}

/// Decoding is deterministic: the outcome is a function of the input bytes
/// alone, so equal buffers always decode to structurally equal results.
/// Together with the contract of `Deserializer::deserialize`, which returns
/// exactly `spec_deserialize` of its buffer, two decodes of identical bytes
/// agree on every chunk of the resulting tree, or fail with the same error.
pub proof fn lemma_deserialize_deterministic(b1: Seq<u8>, b2: Seq<u8>)
    requires
        b1 == b2,
    ensures
        spec_deserialize(b1) == spec_deserialize(b2),
{
}

} // verus!
