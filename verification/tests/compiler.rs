use asmvm::instruction::Instruction;
use asmvm::lexer::parse;
use asmvm::parser::{Parser, ParserError};
use asmvm::symbol::{SymbolTable, SymbolType};

#[test]
fn test_lex_line_instruction() {
    let code = "
.data
.code
load $0 #400
call @test
hlt
test:
load $0 #500
ret
";

    let (data_segment, code_segment) = parse(code).expect("ok");
    let mut p = Parser::new();

    let data_segment = data_segment.unwrap_or_default();

    p.process_data_segment(data_segment).expect("data segment");
    p.process_code_segment(code_segment);

    for instruction in &p.instructions {
        println!("{:?}", instruction);
    }

    println!("{:?}", p.st);

    assert_eq!(5, p.instructions.len());
    assert!(matches!(p.instructions[1], Ok(Instruction::CALL { dst: 3 })));
}

#[test]
fn compile_is_deterministic() {
    let code = ".data\nseven: .integer #7\n.code\nload $0 @seven\nload $1 #3\nadd $2 $0 $1\nhlt\n";
    let first = Parser::new().process(code).expect("ok");
    let second = Parser::new().process(code).expect("ok");
    assert_eq!(first, second);
}

#[test]
fn forward_reference_resolves() {
    let code = ".data\n.code\njmp @end\nload $0 #1\nend:\nhlt\n";
    let instructions = Parser::new().process(code).expect("ok");
    assert_eq!(
        vec![
            Instruction::JMP { dst: 2 },
            Instruction::LOAD { rd: 0, value: 1 },
            Instruction::HLT,
        ],
        instructions
    );
}

#[test]
fn arity_error_reports_counts() {
    let code = ".data\n.code\nadd $0 $1\nhlt\n";
    match Parser::new().process(code) {
        Err(ParserError::ArgumentCountMismatch { expected, got }) => {
            assert_eq!(3, expected);
            assert_eq!(2, got);
        },
        other => panic!("expected an argument-count error, got {:?}", other),
    }
}

#[test]
fn kind_error_reports_token() {
    let code = ".data\n.code\nload $0 'x'\nhlt\n";
    assert!(matches!(
        Parser::new().process(code),
        Err(ParserError::ArgumentInvalid { .. })
    ));
}

#[test]
fn unknown_mnemonic_is_an_error() {
    let code = ".data\n.code\nfrob $0\nhlt\n";
    match Parser::new().process(code) {
        Err(ParserError::OpUnknown(op)) => assert_eq!("frob", op),
        other => panic!("expected an unknown-mnemonic error, got {:?}", other),
    }
}

#[test]
fn missing_symbol_is_distinct_from_wrong_kind() {
    let undefined = ".data\n.code\njmp @nowhere\nhlt\n";
    assert!(matches!(
        Parser::new().process(undefined),
        Err(ParserError::SymbolUndefined(_))
    ));

    let wrong_kind = ".data\ngreeting: .asciiz 'hello'\n.code\njmp @greeting\nhlt\n";
    assert!(matches!(
        Parser::new().process(wrong_kind),
        Err(ParserError::SymbolKindMismatch(_))
    ));

    let wrong_kind_for_load = ".data\ngreeting: .asciiz 'hello'\n.code\nload $0 @greeting\nhlt\n";
    assert!(matches!(
        Parser::new().process(wrong_kind_for_load),
        Err(ParserError::SymbolKindMismatch(_))
    ));
}

#[test]
fn grammar_failure_carries_offset() {
    match Parser::new().process("not a program") {
        Err(ParserError::Syntax { offset }) => assert_eq!(0, offset),
        other => panic!("expected a syntax error, got {:?}", other),
    }
}

#[test]
fn data_constants_feed_load() {
    let code = ".data\nanswer: .integer #42\n.code\nload $3 @answer\nhlt\n";
    let instructions = Parser::new().process(code).expect("ok");
    assert_eq!(
        vec![Instruction::LOAD { rd: 3, value: 42 }, Instruction::HLT],
        instructions
    );
}

#[test]
fn symbol_table_last_write_wins() {
    let mut st = SymbolTable::new();
    assert!(st.add(String::from("x"), SymbolType::Integer(1)).is_none());
    let prev = st.add(String::from("x"), SymbolType::Label(9));
    assert!(matches!(prev.unwrap().stype, SymbolType::Integer(1)));
    assert_eq!(Some(9), st.get_offset("x"));
    assert_eq!(None, st.get_integer("x"));
    assert_eq!(None, st.get_offset("y"));
    assert!(st.contains("x"));
    assert!(!st.contains("y"));
}

#[test]
fn duplicate_labels_take_the_later_definition() {
    let code = ".data\n.code\njmp @spot\nspot:\nload $0 #1\nspot:\nhlt\n";
    let instructions = Parser::new().process(code).expect("ok");
    assert_eq!(Instruction::JMP { dst: 2 }, instructions[0]);
}

#[test]
fn every_mnemonic_compiles() {
    let code = ".data\n.code\nload $0 #1\nload $1 #2\nadd $2 $0 $1\nsub $2 $0 $1\nmul $2 $0 $1\n\
div $2 $0 $1\neq $0 $1\nneq $0 $1\ngte $0 $1\nlte $0 $1\nlt $0 $1\ngt $0 $1\ninc $0\ncloop #2\n\
top:\nloop @top\njmp @done\njmpe @done\njmpne @done\ncall @done\ndone:\nret\nhlt\n";
    let instructions = Parser::new().process(code).expect("ok");
    assert_eq!(21, instructions.len());
    assert_eq!(Instruction::CLOOP { count: 2 }, instructions[13]);
    assert_eq!(Instruction::LOOP { dst: 14 }, instructions[14]);
    assert_eq!(Instruction::CALL { dst: 19 }, instructions[18]);
    assert_eq!(Instruction::RET, instructions[19]);
}
