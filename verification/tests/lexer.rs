use asmvm::lexer::{lex_float, lex_ident, lex_int, lex_string, lex_token, lex_uint,
    parse, Token};

#[test]
fn int_literal() {
    assert_eq!(Ok(100), lex_int("100"));
    assert_eq!(Ok(-100), lex_int("-100"));
    assert!(lex_int("-100-100").is_err());
    assert!(lex_int("-100.100").is_err());
}

#[test]
fn float() {
    assert_eq!(100., lex_float("100.").unwrap().parse::<f32>().unwrap());
    assert_eq!(100.100, lex_float("100.100").unwrap().parse::<f32>().unwrap());
    assert_eq!(-100.100, lex_float("-100.100").unwrap().parse::<f32>().unwrap());
}

#[test]
fn token() {
    println!("{:?}", lex_token("@label"));
}

#[test]
fn code_expression() {
    let input = ".data
label: .integer #100
label1: .integer #100
label2: .integer #100
label3: .integer #100
label4: .integer #100
label5: .integer #100
label6: .integer #100
label7: .integer #100
label8: .asciiz 'somest  ring'
.code
load $0 #4
load $1 #3
label:
mul $1 $0 $2
load $0 #1
sub $2 $0 $1
ret
";
    let (data, expressions) = parse(input).expect("err");
    for expr in &data.unwrap() {
        println!("{:?}", expr);
    }
    assert_eq!(6, expressions.len());
}

#[test]
fn token_kinds() {
    assert!(matches!(lex_token("@jump").unwrap().expr, Token::Ident(s) if s == "jump"));
    assert!(matches!(lex_token(".directive").unwrap().expr, Token::Ident(s) if s == "directive"));
    assert!(matches!(lex_token("label:").unwrap().expr, Token::Ident(s) if s == "label"));
    assert!(matches!(lex_token("'hi there'").unwrap().expr, Token::String(s) if s == "hi there"));
    assert!(matches!(lex_token("#-42").unwrap().expr, Token::Int(-42)));
    assert!(matches!(lex_token("$7").unwrap().expr, Token::Register(7)));
    assert!(lex_token("!").is_err());
    assert!(lex_token("label").is_err());
}

#[test]
fn token_spans() {
    let node = lex_token("#400").unwrap();
    assert_eq!(0, node.start);
    assert_eq!(4, node.end);
}

#[test]
fn int_bounds() {
    assert_eq!(Ok(2147483647), lex_int("2147483647"));
    assert_eq!(Ok(-2147483648), lex_int("-2147483648"));
    assert_eq!(Ok(7), lex_int("0000007"));
    assert!(lex_int("2147483648").is_err());
    assert!(lex_int("99999999999999999999").is_err());
    assert!(lex_int("").is_err());
    assert!(lex_int("-").is_err());
}

#[test]
fn uint_bounds() {
    assert_eq!(Ok(0), lex_uint("0"));
    assert_eq!(Ok(4294967295), lex_uint("4294967295"));
    assert!(lex_uint("4294967296").is_err());
    assert!(lex_uint("-1").is_err());
}

#[test]
fn ident_and_string() {
    assert_eq!("abc123", lex_ident("abc123").unwrap());
    assert!(lex_ident("").is_err());
    assert!(lex_ident("ab-c").is_err());
    assert_eq!("some text", lex_string("'some text'").unwrap());
    assert!(lex_string("''").is_err());
    assert!(lex_string("'unclosed").is_err());
    assert!(lex_string("no quotes").is_err());
}

#[test]
fn parse_rejects_garbage() {
    assert!(parse("garbage").is_err());
    assert!(parse(".data\n.code\n").is_err());
    assert!(parse("").is_err());
}

#[test]
fn parse_without_declarations() {
    let (data, code) = parse(".data\n.code\nhlt\n").expect("ok");
    assert_eq!(0, data.unwrap().len());
    assert_eq!(1, code.len());
}

#[test]
fn labelled_expression_parses() {
    let node = asmvm::lexer::code_expression("start: load $0 #10\n").expect("ok");
    println!("{:?}", node);
}
