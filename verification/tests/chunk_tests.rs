use rox::chunk::Chunk;
use rox::chunk::LineInfo;
use rox::chunk::OpCode;
use rox::value::Value;

#[test]
fn line_info_compresses_runs() {
    let mut li = LineInfo::new();
    assert_eq!(li.get_lineno(0), None);
    li.add(0, 1);
    li.add(5, 1); // same line: not stored
    li.add(8, 2);
    assert_eq!(li.get_lineno(0), Some(1));
    assert_eq!(li.get_lineno(7), Some(1));
    assert_eq!(li.get_lineno(8), Some(2));
    assert_eq!(li.get_lineno(100), Some(2));
}

#[test]
fn chunk_write_and_read() {
    let mut chunk = Chunk::new();
    assert_eq!(chunk.count(), 0);
    chunk.write(7, 1);
    chunk.write(9, 1);
    chunk.write(4, 2);
    assert_eq!(chunk.count(), 3);
    assert_eq!(chunk.read_byte(0), 7);
    assert_eq!(chunk.read_byte(1), 9);
    assert_eq!(chunk.read_byte(2), 4);
    chunk.replace_at(5, 1);
    assert_eq!(chunk.read_byte(1), 5);
    assert_eq!(chunk.get_lineno(0), 1);
    assert_eq!(chunk.get_lineno(1), 1);
    assert_eq!(chunk.get_lineno(2), 2);
}

#[test]
fn constant_pool_is_capped_at_256() {
    let mut chunk = Chunk::new();
    for i in 0..256u64 {
        let idx = chunk.add_constant(Value::Number(i));
        assert_eq!(idx, Some(i as u8));
    }
    assert_eq!(chunk.add_constant(Value::Number(999)), None);
    match chunk.read_constant(255) {
        Value::Number(b) => assert_eq!(b, 255),
        _ => panic!("expected a number"),
    }
}

#[test]
fn opcode_bytes_round_trip() {
    let ops = vec![
        OpCode::OpConstant,
        OpCode::OpAdd,
        OpCode::OpNegate,
        OpCode::OpPrint,
        OpCode::OpReturn,
        OpCode::OpDefineGlobal,
        OpCode::OpGetLocal,
        OpCode::OpJump,
        OpCode::OpJumpIfFalse,
        OpCode::OpLoop,
        OpCode::OpCall,
        OpCode::OpEof,
    ];
    for op in ops {
        assert_eq!(OpCode::try_from(op.as_byte()), Ok(op));
    }
    assert_eq!(OpCode::try_from(200), Err(()));
}
