use lunar_lang::ast::{Args, Block, Chunk, Construct, Expr, FunctionCall, LastStat, PrefixExp, Stat, Var};
use lunar_lang::binfmt::RiteBinaryHeader;
use lunar_lang::bytecode::{Bytecode, OpCode, Operand};
use lunar_lang::compile::{compile, CompileError};
use lunar_lang::lunarir::{LunarIR, LunarValue};
use lunar_lang::packer::RitePacker;
use lunar_lang::transformer::{transform, IrepBase, TransformError};
use lunar_lang::walker::{strip_quotes, WalkError, Walker};

fn print_call(text: &str) -> Stat {
    Stat::FunctionCall(FunctionCall(
        PrefixExp::PrefixVar(Var::VarName("print".to_string())),
        None,
        Args::ArgsString(format!("\"{}\"", text)),
    ))
}

fn for_loop(start: usize, end: usize, step: Option<usize>, body: Vec<Stat>) -> Stat {
    Stat::For(
        "i".to_string(),
        Expr::Number(start),
        Expr::Number(end),
        step.map(Expr::Number),
        Block(Chunk(body, None)),
    )
}

fn lower(stats: Vec<Stat>) -> Vec<IrepBase> {
    let root = Block(Chunk(stats, None));
    let mut walker = Walker::new();
    walker.walk(&root).unwrap();
    transform(&walker.msg_stack).unwrap()
}

fn bc(op: OpCode, operand: Operand) -> Bytecode {
    Bytecode::new(op, operand)
}

fn register_operand(b: &Bytecode) -> Option<u8> {
    match b.operand {
        Operand::B(a) | Operand::BB(a, _) | Operand::BBB(a, _, _) => Some(a),
        _ => None,
    }
}

#[test]
fn for_loop_lowers_to_loads_array_block_and_send() {
    let reps = lower(vec![for_loop(1, 5, None, vec![print_call("hello")])]);
    assert_eq!(reps.len(), 2);
    let root = &reps[0];
    let expected = vec![
        bc(OpCode::LOADI, Operand::BB(1, 1)),
        bc(OpCode::LOADI, Operand::BB(2, 2)),
        bc(OpCode::LOADI, Operand::BB(3, 3)),
        bc(OpCode::LOADI, Operand::BB(4, 4)),
        bc(OpCode::LOADI, Operand::BB(5, 5)),
        bc(OpCode::ARRAY, Operand::BB(1, 5)),
        bc(OpCode::BLOCK, Operand::BB(2, 0)),
        bc(OpCode::SENDB, Operand::BBB(1, 0, 0)),
        bc(OpCode::LOADNIL, Operand::B(6)),
        bc(OpCode::RETURN, Operand::B(6)),
        bc(OpCode::STOP, Operand::Z),
    ];
    assert_eq!(root.insn, expected);
    assert_eq!(root.syms, vec!["each".to_string()]);
    assert_eq!(root.regs, 6);
    assert_eq!(root.rep_len, 1);
    let body = &reps[1];
    assert_eq!(body.parent, Some(0));
    assert_eq!(body.locals, 1);
    assert_eq!(body.regs, 5);
    assert_eq!(body.syms, vec!["print".to_string()]);
    assert_eq!(body.pool, vec!["hello".to_string()]);
    assert_eq!(
        body.insn,
        vec![
            bc(OpCode::ENTER, Operand::W(0x40000)),
            bc(OpCode::STRING, Operand::BB(4, 0)),
            bc(OpCode::SSEND, Operand::BBB(3, 0, 1)),
            bc(OpCode::LOADNIL, Operand::B(5)),
            bc(OpCode::RETURN, Operand::B(5)),
        ]
    );
}

#[test]
fn root_call_ends_with_nil_return_stop() {
    let reps = lower(vec![print_call("hello")]);
    assert_eq!(reps.len(), 1);
    let insn = &reps[0].insn;
    let n = insn.len();
    assert!(n >= 3);
    assert_eq!(insn[n - 3], bc(OpCode::LOADNIL, Operand::B(3)));
    assert_eq!(insn[n - 2], bc(OpCode::RETURN, Operand::B(3)));
    assert_eq!(insn[n - 1], bc(OpCode::STOP, Operand::Z));
}

#[test]
fn walker_emits_expected_sequence_for_call() {
    let root = Block(Chunk(vec![print_call("hi")], None));
    let mut walker = Walker::new();
    walker.walk(&root).unwrap();
    let kinds: Vec<String> = walker.msg_stack.iter().map(|m| format!("{:?}", m)).collect();
    assert_eq!(
        kinds,
        vec![
            "ChunkStart(0)",
            "StoreSym(0, \"print\")",
            "FunctionCallStart(0)",
            "PoolString(0, \"hi\")",
            "FunctionCallArg(0, String(0))",
            "FunctionCallEnd",
            "NoReturn",
            "Stop",
            "ChunkEnd",
        ]
    );
}

#[test]
fn registers_stay_within_recorded_count() {
    let reps = lower(vec![
        print_call("a"),
        for_loop(0, 10, Some(3), vec![print_call("b"), print_call("c")]),
        for_loop(7, 7, None, vec![]),
    ]);
    for rep in &reps {
        let max = rep.insn.iter().filter_map(register_operand).max().unwrap() as usize;
        assert_eq!(max, rep.regs);
    }
}

#[test]
fn symbol_and_pool_indices_are_dense() {
    let reps = lower(vec![print_call("a"), print_call("b"), for_loop(1, 2, None, vec![print_call("c")])]);
    assert_eq!(reps[0].syms, vec!["print".to_string(), "print".to_string(), "each".to_string()]);
    assert_eq!(reps[0].pool, vec!["a".to_string(), "b".to_string()]);
    assert_eq!(reps[1].syms, vec!["print".to_string()]);
    assert_eq!(reps[1].pool, vec!["c".to_string()]);
}

#[test]
fn parent_links_form_tree_rooted_at_zero() {
    let inner = for_loop(1, 2, None, vec![print_call("x")]);
    let reps = lower(vec![for_loop(1, 2, None, vec![inner]), for_loop(3, 4, None, vec![])]);
    assert_eq!(reps.len(), 4);
    assert_eq!(reps[0].parent, None);
    assert_eq!(reps[1].parent, Some(0));
    assert_eq!(reps[2].parent, Some(1));
    assert_eq!(reps[3].parent, Some(0));
    assert_eq!(reps[0].rep_len, 2);
    assert_eq!(reps[1].rep_len, 1);
    for (k, rep) in reps.iter().enumerate().skip(1) {
        let mut p = rep.parent.unwrap();
        assert!(p < k);
        while let Some(q) = reps[p].parent {
            p = q;
        }
        assert_eq!(p, 0);
    }
}

#[test]
fn unsupported_statement_is_reported_by_kind() {
    let root = Block(Chunk(vec![Stat::Other(Construct::If)], None));
    let mut walker = Walker::new();
    assert_eq!(walker.walk(&root), Err(WalkError::Unsupported(Construct::If)));
    match compile(&root) {
        Err(CompileError::Walk(WalkError::Unsupported(Construct::If))) => {},
        other => panic!("unexpected result: {:?}", other),
    }
}

#[test]
fn final_return_is_unsupported() {
    let root = Block(Chunk(vec![], Some(LastStat::Return)));
    let mut walker = Walker::new();
    assert_eq!(walker.walk(&root), Err(WalkError::Unsupported(Construct::Return)));
}

#[test]
fn non_literal_loop_bound_is_unsupported() {
    let stat = Stat::For(
        "i".to_string(),
        Expr::Other(Construct::BinopExpr),
        Expr::Number(3),
        None,
        Block(Chunk(vec![], None)),
    );
    let root = Block(Chunk(vec![stat], None));
    let mut walker = Walker::new();
    assert_eq!(walker.walk(&root), Err(WalkError::Unsupported(Construct::BinopExpr)));
}

#[test]
fn malformed_string_argument_is_unsupported() {
    let stat = Stat::FunctionCall(FunctionCall(
        PrefixExp::PrefixVar(Var::VarName("print".to_string())),
        None,
        Args::ArgsString("\"".to_string()),
    ));
    let root = Block(Chunk(vec![stat], None));
    let mut walker = Walker::new();
    assert_eq!(walker.walk(&root), Err(WalkError::Unsupported(Construct::MalformedString)));
}

#[test]
fn call_image_is_byte_exact() {
    let reps = lower(vec![print_call("hello")]);
    let mut packer = RitePacker::new();
    packer.pack(&reps).unwrap();
    let mut expected: Vec<u8> = Vec::new();
    expected.extend_from_slice(b"RITE0300");
    expected.extend_from_slice(&[0, 0, 0, 89]);
    expected.extend_from_slice(b"LUNR0000");
    expected.extend_from_slice(b"IREP");
    expected.extend_from_slice(&[0, 0, 0, 61]);
    expected.extend_from_slice(b"0300");
    expected.extend_from_slice(&[0, 0, 0, 49, 0, 0, 0, 3, 0, 0, 0, 0, 0, 0, 0, 12]);
    expected.extend_from_slice(&[81, 2, 0, 45, 1, 0, 1, 17, 3, 56, 3, 105]);
    expected.extend_from_slice(&[0, 1, 0, 0, 5]);
    expected.extend_from_slice(b"hello");
    expected.push(0);
    expected.extend_from_slice(&[0, 1, 0, 5]);
    expected.extend_from_slice(b"print");
    expected.push(0);
    expected.extend_from_slice(b"END\0");
    expected.extend_from_slice(&[0, 0, 0, 8]);
    assert_eq!(packer.buf, expected);
}

#[test]
fn packing_twice_is_identical() {
    let reps = lower(vec![for_loop(1, 5, None, vec![print_call("hello")])]);
    let mut a = RitePacker::new();
    let mut b = RitePacker::new();
    a.pack(&reps).unwrap();
    b.pack(&reps).unwrap();
    assert_eq!(a.buf, b.buf);
    let again = lower(vec![for_loop(1, 5, None, vec![print_call("hello")])]);
    let mut c = RitePacker::new();
    c.pack(&again).unwrap();
    assert_eq!(a.buf, c.buf);
}

#[test]
fn header_reports_magic_version_and_total_size() {
    let reps = lower(vec![for_loop(1, 5, None, vec![print_call("hello")])]);
    let mut packer = RitePacker::new();
    packer.pack(&reps).unwrap();
    let header = RiteBinaryHeader::from_bytes(&packer.buf).unwrap();
    assert_eq!(&header.ident, b"RITE");
    assert_eq!(&header.major_version, b"03");
    assert_eq!(&header.minor_version, b"00");
    assert_eq!(&header.compiler_name, b"LUNR");
    assert_eq!(&header.compiler_version, b"0000");
    assert_eq!(u32::from_be_bytes(header.size) as usize, packer.buf.len());
    assert!(RiteBinaryHeader::from_bytes(&packer.buf[..19]).is_none());
}

#[test]
fn compile_matches_walk_transform_pack() {
    let stats = || vec![for_loop(2, 8, Some(2), vec![print_call("x")]), print_call("y")];
    let bytes = compile(&Block(Chunk(stats(), None))).unwrap();
    let reps = lower(stats());
    let mut packer = RitePacker::new();
    packer.pack(&reps).unwrap();
    assert_eq!(bytes, packer.buf);
}

#[test]
fn pack_refuses_counts_that_overflow_their_fields() {
    let mut rep = IrepBase::new();
    rep.locals = 0x10000;
    let mut packer = RitePacker::new();
    assert!(packer.pack(&[rep]).is_err());
    assert!(packer.buf.is_empty());
    let mut rep = IrepBase::new();
    rep.syms.push("x".repeat(0x10000));
    assert!(packer.pack(&[rep]).is_err());
    assert!(packer.buf.is_empty());
}

#[test]
fn empty_tree_packs_to_headers_only() {
    let mut packer = RitePacker::new();
    packer.pack(&[]).unwrap();
    assert_eq!(packer.buf.len(), 40);
    assert_eq!(&packer.buf[8..12], &[0, 0, 0, 40]);
    assert_eq!(&packer.buf[24..28], &[0, 0, 0, 12]);
}

#[test]
fn transform_reports_state_errors() {
    assert_eq!(transform(&[LunarIR::ForParam(1, 2, 1)]).err(), Some(TransformError::StateMismatch));
    assert_eq!(transform(&[LunarIR::ForEnd]).err(), Some(TransformError::StateMismatch));
    assert_eq!(transform(&[LunarIR::FunctionCallEnd]).err(), Some(TransformError::StateMismatch));
    assert_eq!(transform(&[LunarIR::ChunkEnd]).err(), Some(TransformError::StateMismatch));
    assert_eq!(transform(&[LunarIR::Local(0)]).err(), Some(TransformError::Unimplemented));
    assert_eq!(
        transform(&[LunarIR::StoreSym(1, "a".to_string())]).err(),
        Some(TransformError::IndexOutOfOrder)
    );
    assert_eq!(
        transform(&[LunarIR::ForStart(0), LunarIR::ForParam(1, 5, 0)]).err(),
        Some(TransformError::ZeroStep)
    );
    assert_eq!(
        transform(&[LunarIR::ForStart(0), LunarIR::ForParam(0, 300, 1)]).err(),
        Some(TransformError::RegisterOverflow)
    );
}

#[test]
fn transform_loads_truncate_to_low_byte() {
    let reps = transform(&[LunarIR::ForStart(0), LunarIR::ForParam(250, 260, 5)]).unwrap();
    assert_eq!(
        reps[0].insn,
        vec![
            bc(OpCode::LOADI, Operand::BB(1, 250)),
            bc(OpCode::LOADI, Operand::BB(2, 255)),
            bc(OpCode::LOADI, Operand::BB(3, 4)),
            bc(OpCode::ARRAY, Operand::BB(1, 3)),
        ]
    );
}

#[test]
fn empty_progression_gets_one_register() {
    let reps = transform(&[LunarIR::ForStart(0), LunarIR::ForParam(5, 1, 1), LunarIR::Block(0)]).unwrap();
    assert_eq!(
        reps[0].insn,
        vec![bc(OpCode::ARRAY, Operand::BB(1, 0)), bc(OpCode::BLOCK, Operand::BB(2, 0))]
    );
    assert_eq!(reps[0].regs, 2);
}

#[test]
fn call_arguments_load_by_tag() {
    let reps = transform(&[
        LunarIR::FunctionCallStart(3),
        LunarIR::FunctionCallArg(0, LunarValue::Nil),
        LunarIR::FunctionCallArg(1, LunarValue::Boolean(true)),
        LunarIR::FunctionCallArg(2, LunarValue::Boolean(false)),
        LunarIR::FunctionCallArg(3, LunarValue::Number(300)),
        LunarIR::FunctionCallArg(4, LunarValue::String(2)),
        LunarIR::FunctionCallEnd,
    ])
    .unwrap();
    assert_eq!(
        reps[0].insn,
        vec![
            bc(OpCode::LOADNIL, Operand::B(2)),
            bc(OpCode::LOADT, Operand::B(3)),
            bc(OpCode::LOADF, Operand::B(4)),
            bc(OpCode::LOADI, Operand::BB(5, 44)),
            bc(OpCode::STRING, Operand::BB(6, 2)),
            bc(OpCode::SSEND, Operand::BBB(1, 3, 5)),
        ]
    );
    assert_eq!(reps[0].regs, 6);
}

#[test]
fn strip_quotes_removes_enclosing_bytes() {
    assert_eq!(strip_quotes(&"\"hello\"".to_string()), Some("hello".to_string()));
    assert_eq!(strip_quotes(&"''".to_string()), Some(String::new()));
    assert_eq!(strip_quotes(&"'é'".to_string()), Some("é".to_string()));
    assert_eq!(strip_quotes(&"x".to_string()), None);
}

#[test]
fn nested_unsupported_statement_is_reported_by_kind() {
    let root = Block(Chunk(vec![for_loop(1, 2, None, vec![Stat::Other(Construct::If)])], None));
    let mut walker = Walker::new();
    assert_eq!(walker.walk(&root), Err(WalkError::Unsupported(Construct::If)));
}

#[test]
fn walker_emits_expected_sequence_for_loop() {
    let root = Block(Chunk(vec![for_loop(1, 5, None, vec![print_call("hello")])], None));
    let mut walker = Walker::new();
    walker.walk(&root).unwrap();
    let kinds: Vec<String> = walker.msg_stack.iter().map(|m| format!("{:?}", m)).collect();
    assert_eq!(
        kinds,
        vec![
            "ChunkStart(0)",
            "StoreSym(0, \"each\")",
            "ForStart(0)",
            "ForParam(1, 5, 1)",
            "Block(0)",
            "ChunkStart(1)",
            "Enter(262144)",
            "StoreSym(0, \"print\")",
            "FunctionCallStart(0)",
            "PoolString(0, \"hello\")",
            "FunctionCallArg(0, String(0))",
            "FunctionCallEnd",
            "NoReturn",
            "ChunkEnd",
            "ForEnd",
            "NoReturn",
            "Stop",
            "ChunkEnd",
        ]
    );
    assert_eq!(walker.current_irep, 0);
    assert_eq!(walker.idx_of_ireps[1].locals, 1);
}

#[test]
fn block_operands_name_each_body_by_child_index() {
    let inner = for_loop(1, 2, None, vec![]);
    let root = Block(Chunk(vec![for_loop(1, 2, None, vec![inner]), for_loop(3, 4, None, vec![])], None));
    let mut walker = Walker::new();
    walker.walk(&root).unwrap();
    let blocks: Vec<usize> = walker
        .msg_stack
        .iter()
        .filter_map(|m| match m {
            LunarIR::Block(b) => Some(*b),
            _ => None,
        })
        .collect();
    assert_eq!(blocks, vec![0, 0, 1]);
}

#[test]
fn send_arguments_beyond_register_count_are_refused() {
    let ir = [
        LunarIR::NoReturn,
        LunarIR::ChunkStart(1),
        LunarIR::FunctionCallStart(0),
        LunarIR::FunctionCallArg(0, LunarValue::Nil),
        LunarIR::FunctionCallArg(1, LunarValue::Nil),
        LunarIR::ChunkStart(0),
        LunarIR::ChunkEnd,
        LunarIR::FunctionCallEnd,
    ];
    assert_eq!(transform(&ir).err(), Some(TransformError::StateMismatch));
}
