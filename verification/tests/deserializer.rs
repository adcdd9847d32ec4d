use lunir_luau::bytecode::{ChunkTree, Constant, Instruction, Value, Vararg};
use lunir_luau::deserializer::Deserializer;
use lunir_luau::error::{DecodeError, Feature};

fn decode(bytes: Vec<u8>) -> Result<ChunkTree, DecodeError> {
    let mut d = Deserializer::with_buffer(bytes);
    d.deserialize()
}

#[test]
fn compressed_int_single_terminating_byte() {
    // 0x85: low seven bits 5, high bit set, so the value ends at one byte.
    let mut d = Deserializer::with_buffer(vec![0x85]);
    assert_eq!(d.read_compressed_int(), Ok(5));
    assert_eq!(d.position(), 1);
}

#[test]
fn compressed_int_two_bytes() {
    // 0x7F continues with low seven bits 127; 0x81 terminates with 1:
    // 127 | (1 << 7) == 255.
    let mut d = Deserializer::with_buffer(vec![0x7F, 0x81]);
    assert_eq!(d.read_compressed_int(), Ok(255));
    assert_eq!(d.position(), 2);
}

#[test]
fn compressed_int_runaway_is_malformed() {
    // Five continuation bytes without a terminator: over the 5-byte cap.
    let mut d = Deserializer::with_buffer(vec![0x00, 0x00, 0x00, 0x00, 0x00]);
    assert_eq!(d.read_compressed_int(), Err(DecodeError::MalformedVarint));
}

#[test]
fn compressed_int_on_empty_buffer_is_eof() {
    let mut d = Deserializer::with_buffer(Vec::new());
    assert_eq!(d.read_compressed_int(), Err(DecodeError::UnexpectedEof));
}

#[test]
fn compressed_int_full_32_bits() {
    // 0x7F,0x7F,0x7F,0x7F,0x8F: 127 at offsets 0, 7, 14 and 21, then 15 at 28.
    let mut d = Deserializer::with_buffer(vec![0x7F, 0x7F, 0x7F, 0x7F, 0x8F]);
    assert_eq!(d.read_compressed_int(), Ok(0xFFFF_FFFF));
    assert_eq!(d.position(), 5);
}

#[test]
fn read_string_copies_bytes_verbatim() {
    let mut d = Deserializer::with_buffer(vec![0x83, 0xC3, 0xA9, b'!']);
    assert_eq!(d.read_string(), Ok(vec![0xC3, 0xA9, b'!']));
    assert_eq!(d.position(), 4);
}

#[test]
fn read_string_with_short_payload_is_eof() {
    // Length prefix 5, but only one payload byte remains.
    let mut d = Deserializer::with_buffer(vec![0x85, b'a']);
    assert_eq!(d.read_string(), Err(DecodeError::UnexpectedEof));
}

#[test]
fn truncated_instruction_word_is_eof() {
    // One declared instruction, but only two of its four bytes remain.
    let bytes = vec![3, 0x80, 0x81, 0, 0, 0, 1, 0x81, 0x16, 0];
    assert_eq!(decode(bytes), Err(DecodeError::UnexpectedEof));
}

#[test]
fn truncated_number_constant_is_eof() {
    let bytes = vec![3, 0x80, 0x81, 0, 0, 0, 1, 0x80, 0x81, 2, 0, 0];
    assert_eq!(decode(bytes), Err(DecodeError::UnexpectedEof));
}

#[test]
fn empty_buffer_is_eof() {
    assert_eq!(decode(Vec::new()), Err(DecodeError::UnexpectedEof));
}

#[test]
fn version_zero_is_a_compiler_error() {
    let r = decode(vec![0, b'b', b'o', b'o', b'm']);
    assert_eq!(r, Err(DecodeError::CompilerError(b"boom".to_vec())));
}

#[test]
fn version_one_is_invalid() {
    assert_eq!(decode(vec![1]), Err(DecodeError::InvalidVersion));
}

#[test]
fn version_two_is_invalid() {
    assert_eq!(decode(vec![2]), Err(DecodeError::InvalidVersion));
}

#[test]
fn minimal_chunk_decodes_end_to_end() {
    // version 3; empty string table; one minimal prototype; main index 0.
    let bytes = vec![
        3, 0x80, 0x81, // version, 0 strings, 1 prototype
        0, 0, 0, 1, // max stack, params, upvalues, vararg HasArg
        0x80, 0x80, 0x80, 0x80, // no instructions, constants, children, name
        0, 0,    // no line info, no debug info
        0x80, // main prototype 0
    ];
    let tree = decode(bytes).unwrap();
    assert_eq!(tree.protos.len(), 1);
    assert_eq!(tree.main, 0);
    let chunk = tree.main_chunk();
    assert_eq!(chunk.max_stack_size, 0);
    assert_eq!(chunk.num_params, 0);
    assert_eq!(chunk.num_upvalues, 0);
    assert_eq!(chunk.vararg_kind, Vararg::HasArg);
    assert!(chunk.instructions.is_empty());
    assert!(chunk.constants.is_empty());
    assert!(chunk.child_functions.is_empty());
    assert_eq!(chunk.name, None);
    assert_eq!(chunk.line_info, None);
}

#[test]
fn full_chunk_decodes_every_record_kind() {
    let bytes = vec![
        3,    // version
        0x81, // one string
        0x82, b'h', b'i', // "hi"
        0x81, // one prototype
        2, 0, 0, 2, // max stack 2, vararg IsVararg
        0x81, 0x16, 0x00, 0x00, 0x10, // one instruction, word 0x1000_0016
        0x86, // six constant records
        0,    // nil
        1, 1, // boolean true
        2, 0, 0, 0, 0, 0, 0, 0xF8, 0x3F, // number 1.5
        3, 0x81, // string 1 ("hi")
        4, 0xAA, 0xBB, 0xCC, 0xDD, // import record, discarded
        5, 0x82, 0x80, 0x83, // table of pool entries 0 and 3
        0x80, // no children
        0x81, // name: string 1
        1, 0, 9, // line info present, shift 0, one delta byte
        7, 0, 0, 0,    // one absolute line record: 7
        0,    // no debug info
        0x80, // main prototype 0
    ];
    let tree = decode(bytes).unwrap();
    let chunk = tree.main_chunk();
    assert_eq!(chunk.max_stack_size, 2);
    assert_eq!(chunk.vararg_kind, Vararg::IsVararg);
    assert_eq!(chunk.instructions, vec![Instruction(0x1000_0016)]);
    assert_eq!(
        chunk.constants,
        vec![
            Constant::Nil,
            Constant::Boolean(true),
            Constant::Number(0x3FF8_0000_0000_0000),
            Constant::Str(b"hi".to_vec()),
            Constant::Table(vec![Value::ConstantIndex(0), Value::ConstantIndex(3)]),
        ]
    );
    assert!(chunk.child_functions.is_empty());
    assert_eq!(chunk.name, Some(b"hi".to_vec()));
    assert_eq!(chunk.line_info, Some(vec![7]));
}

#[test]
fn number_constant_keeps_the_bit_pattern() {
    let tree = decode(vec![
        3, 0x80, 0x81, 0, 0, 0, 1, 0x80, 0x81, // one constant record
        2, 0x18, 0x2D, 0x44, 0x54, 0xFB, 0x21, 0x09, 0x40, // pi
        0x80, 0x80, 0, 0, 0x80,
    ])
    .unwrap();
    let chunk = tree.main_chunk();
    assert_eq!(chunk.constants, vec![Constant::Number(0x4009_21FB_5444_2D18)]);
    assert_eq!(f64::from_bits(0x4009_21FB_5444_2D18), std::f64::consts::PI);
}

#[test]
fn invalid_vararg_flag_is_rejected() {
    let bytes = vec![3, 0x80, 0x81, 0, 0, 0, 3];
    assert_eq!(decode(bytes), Err(DecodeError::InvalidVarargFlag));
}

#[test]
fn unknown_constant_tag_is_rejected() {
    let bytes = vec![3, 0x80, 0x81, 0, 0, 0, 1, 0x80, 0x81, 7];
    assert_eq!(decode(bytes), Err(DecodeError::UnknownConstantTag(7)));
}

#[test]
fn closure_constant_is_unsupported() {
    let bytes = vec![3, 0x80, 0x81, 0, 0, 0, 1, 0x80, 0x81, 6, 0x80];
    assert_eq!(
        decode(bytes),
        Err(DecodeError::UnsupportedFeature(Feature::ClosureConstant))
    );
}

#[test]
fn debug_info_is_unsupported() {
    let bytes = vec![3, 0x80, 0x81, 0, 0, 0, 1, 0x80, 0x80, 0x80, 0x80, 0, 1];
    assert_eq!(
        decode(bytes),
        Err(DecodeError::UnsupportedFeature(Feature::DebugInfo))
    );
}

#[test]
fn string_constant_with_no_matching_table_entry_is_rejected() {
    // The string table is empty, so string index 1 resolves to nothing.
    let bytes = vec![3, 0x80, 0x81, 0, 0, 0, 1, 0x80, 0x81, 3, 0x81];
    assert_eq!(decode(bytes), Err(DecodeError::InvalidStringIndex));
}

#[test]
fn chunk_name_index_past_the_table_is_rejected() {
    let bytes = vec![3, 0x80, 0x81, 0, 0, 0, 1, 0x80, 0x80, 0x80, 0x82];
    assert_eq!(decode(bytes), Err(DecodeError::InvalidStringIndex));
}

#[test]
fn child_reference_to_a_later_prototype_is_unresolved() {
    // The first prototype can reference nothing: the table holds no earlier
    // entry when it is decoded.
    let bytes = vec![3, 0x80, 0x81, 0, 0, 0, 1, 0x80, 0x80, 0x81, 0x80];
    assert_eq!(decode(bytes), Err(DecodeError::UnresolvedProtoIndex));
}

#[test]
fn main_index_past_the_table_is_unresolved() {
    // Zero prototypes: no main index can resolve.
    let bytes = vec![3, 0x80, 0x80, 0x80];
    assert_eq!(decode(bytes), Err(DecodeError::UnresolvedProtoIndex));
}

#[test]
fn truncated_prototype_is_eof() {
    let bytes = vec![3, 0x80, 0x81, 0, 0];
    assert_eq!(decode(bytes), Err(DecodeError::UnexpectedEof));
}

#[test]
fn child_references_resolve_to_earlier_prototypes() {
    let bytes = vec![
        3, 0x80, 0x82, // two prototypes
        0, 0, 0, 1, 0x80, 0x80, 0x80, 0x80, 0, 0, // prototype 0, minimal
        1, 1, 0, 2, 0x80, 0x80, // prototype 1 header
        0x81, 0x80, // one child: prototype 0
        0x80, 0, 0,    // unnamed, no line info, no debug info
        0x81, // main prototype 1
    ];
    let tree = decode(bytes).unwrap();
    assert_eq!(tree.protos.len(), 2);
    assert_eq!(tree.main, 1);
    let chunk = tree.main_chunk();
    assert_eq!(chunk.max_stack_size, 1);
    assert_eq!(chunk.num_params, 1);
    assert_eq!(chunk.vararg_kind, Vararg::IsVararg);
    assert_eq!(chunk.child_functions, vec![0]);
    // The reference resolves against the same table the tree carries.
    let child = &tree.protos[chunk.child_functions[0]];
    assert_eq!(child.max_stack_size, 0);
    assert_eq!(child.vararg_kind, Vararg::HasArg);
}

#[test]
fn proto_table_has_the_declared_size_and_resolvable_references() {
    let bytes = vec![
        3, 0x80, 0x83, // three prototypes
        0, 0, 0, 1, 0x80, 0x80, 0x80, 0x80, 0, 0, // prototype 0
        0, 0, 0, 2, 0x80, 0x80, 0x80, 0x80, 0, 0, // prototype 1
        2, 0, 1, 4, 0x80, 0x80, // prototype 2 header
        0x82, 0x80, 0x81, // two children: prototypes 0 and 1
        0x80, 0, 0,    // unnamed, no line info, no debug info
        0x82, // main prototype 2
    ];
    let tree = decode(bytes).unwrap();
    assert_eq!(tree.protos.len(), 3);
    assert!(tree.main < tree.protos.len());
    for (i, proto) in tree.protos.iter().enumerate() {
        for child in &proto.child_functions {
            assert!(*child < i);
        }
    }
    assert_eq!(tree.main_chunk().child_functions, vec![0, 1]);
}

#[test]
fn decode_is_deterministic_on_identical_bytes() {
    let bytes = vec![
        3, 0x81, 0x82, b'h', b'i', 0x81, 2, 0, 0, 2, 0x81, 0x16, 0x00, 0x00, 0x10, 0x82, 0, 1, 1,
        0x80, 0x81, 1, 0, 9, 7, 0, 0, 0, 0, 0x80,
    ];
    let first = decode(bytes.clone());
    let second = decode(bytes);
    assert_eq!(first, second);
}
