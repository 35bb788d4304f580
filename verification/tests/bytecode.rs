use rox::bytecode::chunk::RunList;
use rox::bytecode::compiler::Compiler;
use rox::bytecode::error::Error;
use rox::bytecode::op::OpCode;
use rox::bytecode::scanner::{Scanner, ScannerError, Token, TokenType};
use rox::bytecode::value::{HashTable, Obj, Value};
use rox::bytecode::vm::VM;
use rox::number::{ArithOp, Arithmetic, Chars, Number};

struct Ieee;

fn num(x: f64) -> Number {
    Number::from_bits(x.to_bits())
}

fn float(n: Number) -> f64 {
    f64::from_bits(n.to_bits())
}

impl Arithmetic for Ieee {
    fn parse(&self, literal: &str) -> Number {
        num(literal.parse::<f64>().unwrap_or(f64::NAN))
    }

    fn apply(&self, op: ArithOp, lhs: Number, rhs: Number) -> Number {
        let (l, r) = (float(lhs), float(rhs));
        num(match op {
            ArithOp::Add => l + r,
            ArithOp::Sub => l - r,
            ArithOp::Mul => l * r,
            ArithOp::Div => l / r,
            ArithOp::Rem => l % r,
        })
    }

    fn render(&self, n: Number) -> String {
        format!("{}", float(n))
    }

    fn parsed(&self, _literal: Chars) -> Number {
        unreachable!("contracts speak of this, programs do not call it")
    }

    fn applied(&self, _op: ArithOp, _lhs: Number, _rhs: Number) -> Number {
        unreachable!("contracts speak of this, programs do not call it")
    }

    fn rendered(&self, _n: Number) -> Chars {
        unreachable!("contracts speak of this, programs do not call it")
    }

    fn clock(&self) -> Number {
        num(0.0)
    }
}

fn run_batch(tokens: &str, expects: &[(TokenType, &str)]) {
    let mut s = Scanner::new(tokens);
    let mut seen = 0;
    for expect in expects {
        let token = match s.next() {
            Some(token) => token,
            None => break,
        };
        let t = token.expect("token was an error");
        assert_eq!(
            &(t.kind, t.slice.as_str()),
            expect,
            "expected {:?} found {:?} for {:?}",
            expect,
            t.kind,
            t.slice
        );
        seen += 1;
    }
    assert_eq!(seen, expects.len());
}

fn output_of(source: &str) -> Result<Vec<String>, Error> {
    let mut vm = VM::new();
    vm.interpret(source, &Ieee)?;
    Ok(vm.take_output())
}

#[test]
fn run_list() {
    let values = [1usize, 2, 3, 3, 3, 3, 4, 5, 6, 6, 7];
    let mut rl = RunList::default();
    for v in values.iter() {
        rl.push(*v);
    }
    for (i, v) in values.iter().enumerate() {
        assert_eq!(*v, rl.get_unchecked(i));
    }
}

#[test]
fn run_list_get_fails_out_of_range() {
    let mut rl = RunList::default();
    assert_eq!(rl.get(0), None);
    rl.push(7);
    rl.push(7);
    rl.push(9);
    assert_eq!(rl.get(0), Some(7));
    assert_eq!(rl.get(1), Some(7));
    assert_eq!(rl.get(2), Some(9));
    assert_eq!(rl.get(3), None);
}

#[test]
fn compiler_strings() {
    let lox = r#""first" + "last""#;
    let c = Compiler::new(lox);
    let chunk = c.compile(&Ieee).unwrap();
    println!("{:#?}", chunk);
    assert_eq!(
        chunk.code,
        vec![
            OpCode::Constant { idx: 0 },
            OpCode::Constant { idx: 1 },
            OpCode::Add,
            OpCode::Return,
        ]
    );
    assert_eq!(chunk.heap, vec![Obj::string("first"), Obj::string("last"),]);
}

#[test]
fn expressions() {
    let lox = "!(5 - 4 > 3 * 2 == !nil)";
    let mut scanner = Scanner::new(lox);
    let tokens = scanner.scan_all().unwrap();
    assert_eq!(
        tokens,
        vec![
            Token::new(TokenType::Bang, "!", 1),
            Token::new(TokenType::LeftParen, "(", 1),
            Token::new(TokenType::Number, "5", 1),
            Token::new(TokenType::Minus, "-", 1),
            Token::new(TokenType::Number, "4", 1),
            Token::new(TokenType::Greater, ">", 1),
            Token::new(TokenType::Number, "3", 1),
            Token::new(TokenType::Star, "*", 1),
            Token::new(TokenType::Number, "2", 1),
            Token::new(TokenType::EqEq, "==", 1),
            Token::new(TokenType::Bang, "!", 1),
            Token::new(TokenType::Nil, "nil", 1),
            Token::new(TokenType::RightParen, ")", 1),
            Token::eof(1),
        ]
    );
    let compiler = Compiler::new(lox);
    let chunk = compiler.compile(&Ieee).unwrap();
    assert_eq!(
        chunk.code,
        vec![
            OpCode::Constant { idx: 0 }, //5
            OpCode::Constant { idx: 1 }, //4
            OpCode::Sub,
            OpCode::Constant { idx: 2 }, //3
            OpCode::Constant { idx: 3 }, //2
            OpCode::Mul,
            OpCode::Gtr,
            OpCode::Nil,
            OpCode::Not,
            OpCode::Eq,
            OpCode::Not,
            OpCode::Return,
        ]
    );
}

#[test]
fn keywords() {
    let tokens = "and class else false for fun if nil or print return super this true var while";
    let expects = [
        (TokenType::And, "and"),
        (TokenType::Class, "class"),
        (TokenType::Else, "else"),
        (TokenType::False, "false"),
        (TokenType::For, "for"),
        (TokenType::Fun, "fun"),
        (TokenType::If, "if"),
        (TokenType::Nil, "nil"),
        (TokenType::Or, "or"),
        (TokenType::Print, "print"),
        (TokenType::Return, "return"),
        (TokenType::Super, "super"),
        (TokenType::This, "this"),
        (TokenType::True, "true"),
        (TokenType::Var, "var"),
        (TokenType::While, "while"),
        (TokenType::Eof, ""),
    ];
    run_batch(tokens, &expects);
}

#[test]
fn puncts() {
    run_batch(
        "( ) { } , . - + ; / * ! != = == > >= < <=",
        &[
            (TokenType::LeftParen, "("),
            (TokenType::RightParen, ")"),
            (TokenType::LeftBrace, "{"),
            (TokenType::RightBrace, "}"),
            (TokenType::Comma, ","),
            (TokenType::Period, "."),
            (TokenType::Minus, "-"),
            (TokenType::Plus, "+"),
            (TokenType::Semi, ";"),
            (TokenType::Slash, "/"),
            (TokenType::Star, "*"),
            (TokenType::Bang, "!"),
            (TokenType::BangEq, "!="),
            (TokenType::Eq, "="),
            (TokenType::EqEq, "=="),
            (TokenType::Greater, ">"),
            (TokenType::GreaterEq, ">="),
            (TokenType::Less, "<"),
            (TokenType::LessEq, "<="),
            (TokenType::Eof, ""),
        ],
    )
}

#[test]
fn scanner_strings() {
    run_batch(
        r#""single line string"
        "multi line string 
        with a bunch of whatspace"
        "#,
        &[
            (TokenType::String, r#""single line string""#),
            (
                TokenType::String,
                r#""multi line string 
        with a bunch of whatspace""#,
            ),
            (TokenType::Eof, ""),
        ],
    )
}

#[test]
fn numbers() {
    run_batch(
        "1 1.2 111 999 0987.321",
        &[
            (TokenType::Number, "1"),
            (TokenType::Number, "1.2"),
            (TokenType::Number, "111"),
            (TokenType::Number, "999"),
            (TokenType::Number, "0987.321"),
            (TokenType::Eof, ""),
        ],
    )
}

#[test]
fn idents() {
    run_batch(
        "ifrit forget nope nill ",
        &[
            (TokenType::Ident, "ifrit"),
            (TokenType::Ident, "forget"),
            (TokenType::Ident, "nope"),
            (TokenType::Ident, "nill"),
            (TokenType::Eof, ""),
        ],
    )
}

#[test]
fn skip_whitespace() {
    let whitespace = "      
        \t\t//thigns
        ";
    let mut s = Scanner::new(whitespace);
    while let Some(token) = s.next() {
        let t = token.expect("failed to scann eof");
        assert_eq!(t.kind, TokenType::Eof)
    }
}

#[test]
fn multiple_strings() {
    run_batch(
        r#""first" + "last""#,
        &[
            (TokenType::String, r#""first""#),
            (TokenType::Plus, "+"),
            (TokenType::String, r#""last""#),
        ],
    );
}

#[test]
fn vm_strings() {}

#[test]
fn scanner_number_boundaries() {
    run_batch("0", &[(TokenType::Number, "0"), (TokenType::Eof, "")]);
    run_batch("0.0", &[(TokenType::Number, "0.0"), (TokenType::Eof, "")]);
    run_batch(
        "1.",
        &[(TokenType::Number, "1"), (TokenType::Period, "."), (TokenType::Eof, "")],
    );
    run_batch("1.2", &[(TokenType::Number, "1.2"), (TokenType::Eof, "")]);
    run_batch(
        ".5",
        &[(TokenType::Period, "."), (TokenType::Number, "5"), (TokenType::Eof, "")],
    );
}

#[test]
fn scanner_keyword_prefix_is_identifier() {
    run_batch(
        "forget for _x a_1 fa t th",
        &[
            (TokenType::Ident, "forget"),
            (TokenType::For, "for"),
            (TokenType::Ident, "_x"),
            (TokenType::Ident, "a_1"),
            (TokenType::Ident, "fa"),
            (TokenType::Ident, "t"),
            (TokenType::Ident, "th"),
            (TokenType::Eof, ""),
        ],
    );
}

#[test]
fn scanner_slash_after_slash_in_comment_only() {
    run_batch(
        "1 / 2 // 3 / 4\n/ 5",
        &[
            (TokenType::Number, "1"),
            (TokenType::Slash, "/"),
            (TokenType::Number, "2"),
            (TokenType::Slash, "/"),
            (TokenType::Number, "5"),
            (TokenType::Eof, ""),
        ],
    );
}

#[test]
fn scanner_counts_lines() {
    let mut s = Scanner::new("1\n\"a\nb\"\n  x");
    let one = s.next().unwrap().unwrap();
    assert_eq!((one.kind, one.line), (TokenType::Number, 1));
    let text = s.next().unwrap().unwrap();
    assert_eq!((text.kind, text.line), (TokenType::String, 3));
    let x = s.next().unwrap().unwrap();
    assert_eq!((x.kind, x.line), (TokenType::Ident, 4));
    let eof = s.next().unwrap().unwrap();
    assert_eq!((eof.kind, eof.line), (TokenType::Eof, 4));
    assert!(s.next().is_none());
    assert!(s.next().is_none());
}

#[test]
fn scanner_errors_carry_line_and_index() {
    let mut s = Scanner::new("1\n @");
    assert!(s.next().unwrap().is_ok());
    assert_eq!(s.next().unwrap().unwrap_err(), ScannerError::new(2, 3));
    let mut s = Scanner::new("\n\"open");
    assert_eq!(s.next().unwrap().unwrap_err(), ScannerError::new(2, 1));
    assert_eq!(ScannerError::new(2, 13).to_string(), "Scanner Error line: 2 index: 13");
}

#[test]
fn vm_prints_arithmetic() {
    assert_eq!(output_of("1 + 2 * 3").unwrap(), vec!["7".to_string()]);
    assert_eq!(output_of("(1 + 2) * 3").unwrap(), vec!["9".to_string()]);
    assert_eq!(output_of("10 - 4 - 3").unwrap(), vec!["3".to_string()]);
    assert_eq!(output_of("8 / 2 / 2").unwrap(), vec!["2".to_string()]);
    assert_eq!(output_of("-3 + 1").unwrap(), vec!["-2".to_string()]);
    assert_eq!(output_of("1 / 0").unwrap(), vec!["inf".to_string()]);
}

#[test]
fn vm_compares_in_source_order() {
    assert_eq!(output_of("1 < 2").unwrap(), vec!["true".to_string()]);
    assert_eq!(output_of("2 < 1").unwrap(), vec!["false".to_string()]);
    assert_eq!(output_of("2 > 1").unwrap(), vec!["true".to_string()]);
    assert_eq!(output_of("1 <= 1").unwrap(), vec!["true".to_string()]);
    assert_eq!(output_of("1 >= 2").unwrap(), vec!["false".to_string()]);
    assert_eq!(output_of("1 != 2").unwrap(), vec!["true".to_string()]);
    assert_eq!(output_of("!(5 - 4 > 3 * 2 == !nil)").unwrap(), vec!["true".to_string()]);
}

#[test]
fn vm_concatenates_strings_on_the_heap() {
    let mut vm = VM::new();
    vm.interpret(r#""Hello" + ", world""#, &Ieee).unwrap();
    assert_eq!(vm.take_output(), vec!["Hello, world".to_string()]);
    assert_eq!(
        vm.chunk.heap,
        vec![Obj::string("Hello"), Obj::string(", world"), Obj::string("Hello, world")]
    );
}

#[test]
fn vm_equality_is_by_value() {
    assert_eq!(output_of(r#""a" == "a""#).unwrap(), vec!["true".to_string()]);
    assert_eq!(output_of(r#""a" == "b""#).unwrap(), vec!["false".to_string()]);
    assert_eq!(output_of("nil == nil").unwrap(), vec!["true".to_string()]);
    assert_eq!(output_of("nil == 0").unwrap(), vec!["false".to_string()]);
    assert_eq!(output_of("1 == 1").unwrap(), vec!["true".to_string()]);
    assert_eq!(output_of("true == 1").unwrap(), vec!["false".to_string()]);
}

#[test]
fn vm_reports_type_errors() {
    match output_of(r#"-"x""#) {
        Err(Error::Runtime(msg)) => assert_eq!(msg, "Operand must be a number."),
        other => panic!("unexpected {:?}", other),
    }
    match output_of(r#"1 + "x""#) {
        Err(Error::Runtime(msg)) => assert_eq!(msg, "Cannot add unmatched operands"),
        other => panic!("unexpected {:?}", other),
    }
    match output_of("true - false") {
        Err(Error::Runtime(msg)) => {
            assert_eq!(msg, "Operands must be two numbers or two strings")
        }
        other => panic!("unexpected {:?}", other),
    }
    match output_of("1 < nil") {
        Err(Error::Runtime(msg)) => assert_eq!(msg, "Cannot compare unmatched operands"),
        other => panic!("unexpected {:?}", other),
    }
}

#[test]
fn compiler_reports_what_is_no_expression() {
    assert!(matches!(Compiler::new("1 +").compile(&Ieee), Err(Error::Compiler(_))));
    assert!(matches!(Compiler::new("-").compile(&Ieee), Err(Error::Compiler(_))));
    assert!(matches!(Compiler::new("(1").compile(&Ieee), Err(Error::Compiler(_))));
    assert!(matches!(Compiler::new("1 2").compile(&Ieee), Err(Error::Compiler(_))));
    assert!(matches!(Compiler::new("1 @ 2").compile(&Ieee), Err(Error::Compiler(_))));
    assert!(matches!(Compiler::new("").compile(&Ieee), Err(Error::Compiler(_))));
    match Compiler::new("1 +").compile(&Ieee) {
        Err(e) => assert_eq!(
            e.to_string(),
            "Compiler error: [line 1] Error at end: Expect prefix expression"
        ),
        Ok(_) => panic!("compiled"),
    }
}

#[test]
fn compiler_emits_duals_with_not() {
    let chunk = Compiler::new("1 <= 2").compile(&Ieee).unwrap();
    assert_eq!(
        chunk.code,
        vec![
            OpCode::Constant { idx: 0 },
            OpCode::Constant { idx: 1 },
            OpCode::Gtr,
            OpCode::Not,
            OpCode::Return
        ]
    );
    let chunk = Compiler::new("1 >= 2").compile(&Ieee).unwrap();
    assert_eq!(chunk.code[2..4], [OpCode::Less, OpCode::Not]);
    let chunk = Compiler::new("1 != 2").compile(&Ieee).unwrap();
    assert_eq!(chunk.code[2..4], [OpCode::Eq, OpCode::Not]);
    assert_eq!(chunk.lines.get(0), Some(1));
    assert_eq!(chunk.lines.get(4), Some(1));
    assert_eq!(chunk.lines.get(5), None);
}

#[test]
fn tables_compare_by_content_and_print() {
    let mut a = HashTable::new();
    a.insert("k", Value::Boolean(true));
    let mut b = HashTable::new();
    assert!(!a.equals(&b));
    b.insert("k", Value::Boolean(true));
    assert!(a.equals(&b));
    assert_eq!(a.get("k"), Some(Value::Boolean(true)));
    assert_eq!(a.get("j"), None);
    assert_eq!(a.pairs(), vec![("k".to_string(), Value::Boolean(true))]);
    assert_eq!(Obj::hash_table(a), Obj::hash_table(b));
    let mut t = HashTable::new();
    t.insert("k", Value::Nil);
    let mut vm = VM::new();
    vm.chunk.add_obj(Obj::hash_table(t));
    assert_eq!(vm.format_value(Some(Value::Obj { idx: 0 }), 0, &Ieee), "{\n  k: nil}");
    assert_eq!(vm.format_value(None, 0, &Ieee), "nil");
    assert_eq!(vm.format_value(Some(Value::Number(num(1.5))), 0, &Ieee), "1.5");
}

#[test]
fn numbers_compare_as_ieee() {
    let nan = num(f64::NAN);
    assert!(nan.is_nan());
    assert!(!nan.equals(nan));
    assert!(num(0.0).equals(num(-0.0)));
    assert!(!num(0.0).less(num(-0.0)));
    assert!(num(-1.0).less(num(0.0)));
    assert!(num(-2.0).less(num(-1.0)));
    assert!(num(1.0).less(num(2.0)));
    assert!(num(1.0).less(num(f64::INFINITY)));
    assert!(!num(1.0).less(nan));
    assert!(num(2.0).greater(num(1.0)));
    assert!(num(1.0).less_equal(num(1.0)));
    assert!(num(1.0).greater_equal(num(1.0)));
    assert!(!nan.less_equal(nan));
    assert_eq!(float(num(1.5).negate()), -1.5);
    assert_eq!(float(num(1.5).negate().negate()), 1.5);
    for (a, b) in [(1.0, 2.0), (-3.5, 2.0), (0.0, -0.0), (f64::NAN, 1.0), (-1e300, -1e-300)] {
        assert_eq!(num(a).less(num(b)), a < b);
        assert_eq!(num(b).less(num(a)), b < a);
        assert_eq!(num(a).equals(num(b)), a == b);
        assert_eq!(num(a) == num(b), a == b);
    }
}

#[test]
fn scanning_all_tokens_at_once() {
    let mut s = Scanner::new("1 + 2");
    let all = s.scan_all().unwrap();
    assert_eq!(all.len(), 4);
    assert_eq!(all[3].kind, TokenType::Eof);
    assert!(s.scan_all().unwrap().is_empty());
    let mut s = Scanner::new("1 + \"open");
    assert_eq!(s.scan_all().unwrap_err(), ScannerError::new(1, 4));
}

#[test]
fn machine_steps_one_instruction_at_a_time() {
    let chunk = Compiler::new("1 + 2").compile(&Ieee).unwrap();
    let mut vm = VM::load(chunk);
    assert!(vm.step(&Ieee).unwrap());
    assert!(vm.step(&Ieee).unwrap());
    assert!(vm.step(&Ieee).unwrap());
    assert_eq!(vm.line(), Some(1));
    assert!(!vm.step(&Ieee).unwrap());
    assert_eq!(vm.take_output(), vec!["3"]);
    assert!(!vm.step(&Ieee).unwrap());
    assert!(vm.run(&Ieee).is_ok());
    assert!(vm.take_output().is_empty());
    assert_eq!(Error::Runtime("x".to_string()).exit_code(), 70);
    assert_eq!(Error::Compiler("x".to_string()).exit_code(), 65);
    assert_eq!(rox::bytecode::vm::repl(&Ieee).unwrap(), vec!["yesno"]);
    assert_eq!(rox::bytecode::vm::interpret("1 == 1", &Ieee).unwrap(), vec!["true"]);
}

#[test]
fn listing_shows_one_line_for_each_instruction() {
    let chunk = Compiler::new("1 +\n2 == nil\n+ \"x\"").compile(&Ieee).unwrap();
    assert!(chunk.is_sound());
    let lines = chunk.dissassemble_all("script", &Ieee);
    assert_eq!(
        lines,
        vec![
            "== script ==",
            "0000 0001 Constant         Number(1)",
            "0001 0002Constant         Number(2)",
            "0002    | Add",
            "0003 0003nil",
            "0004    | Constant         Obj { idx: 0 }",
            "0005    | Add",
            "0006    | Eq",
            "0007    | Return",
        ]
    );
    assert_eq!(chunk.dissassemble_inst_idx(2, &Ieee), "0002    | Add");
    assert_eq!(chunk.dissassemble_inst(0, &OpCode::True, &Ieee), "0000 0001 true");
    let mut far = rox::bytecode::chunk::Chunk::new();
    far.write(OpCode::False, 12345);
    far.write(OpCode::Not, 12345);
    far.write(OpCode::Return, 123456);
    assert_eq!(
        far.dissassemble_all("far", &Ieee),
        vec!["== far ==", "0000 12345 false", "0001    | Not", "0002 123456Return"]
    );
    assert_eq!(chunk.print_obj(0, &Ieee), "x");
}

#[test]
fn chunk_out_of_order_is_told() {
    let mut chunk = rox::bytecode::chunk::Chunk::new();
    assert!(chunk.is_sound());
    chunk.write(OpCode::Constant { idx: 0 }, 1);
    assert!(!chunk.is_sound());
    let at = chunk.add_constant(Value::Obj { idx: 0 });
    assert_eq!(at, 0);
    assert!(!chunk.is_sound());
    chunk.add_obj(Obj::string("x"));
    assert!(chunk.is_sound());
    chunk.code.push(OpCode::Return);
    assert!(!chunk.is_sound());
}
