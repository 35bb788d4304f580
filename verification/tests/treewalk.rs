use rox::number::{ArithOp, Arithmetic, Chars, Number};
use rox::treewalk::env::Env;
use rox::treewalk::error::Error;
use rox::treewalk::expr::{Expr, Literal};
use rox::treewalk::interpreter::{show, Interpreter};
use rox::treewalk::lox::{Lox, Prompt};
use rox::treewalk::parser::Parser;
use rox::treewalk::resolver::{FuncType, Resolver};
use rox::treewalk::scanner::Scanner;
use rox::treewalk::stmt::Stmt;
use rox::treewalk::token::{Kind, TokenType};
use rox::treewalk::value::Value;

struct Ieee;

fn num(x: f64) -> Number {
    Number::from_bits(x.to_bits())
}

fn float(n: Number) -> f64 {
    f64::from_bits(n.to_bits())
}

impl Arithmetic for Ieee {
    fn parse(&self, literal: &str) -> Number {
        num(literal.parse::<f64>().unwrap_or(f64::NAN))
    }

    fn apply(&self, op: ArithOp, lhs: Number, rhs: Number) -> Number {
        let (l, r) = (float(lhs), float(rhs));
        num(match op {
            ArithOp::Add => l + r,
            ArithOp::Sub => l - r,
            ArithOp::Mul => l * r,
            ArithOp::Div => l / r,
            ArithOp::Rem => l % r,
        })
    }

    fn render(&self, n: Number) -> String {
        format!("{}", float(n))
    }

    fn parsed(&self, _literal: Chars) -> Number {
        unreachable!("contracts speak of this, programs do not call it")
    }

    fn applied(&self, _op: ArithOp, _lhs: Number, _rhs: Number) -> Number {
        unreachable!("contracts speak of this, programs do not call it")
    }

    fn rendered(&self, _n: Number) -> Chars {
        unreachable!("contracts speak of this, programs do not call it")
    }

    fn clock(&self) -> Number {
        num(1234.5)
    }
}

fn parser_for(source: &str) -> Parser {
    Parser::new(Scanner::new(source.to_string()).unwrap())
}

fn parse_all(source: &str) -> Vec<Stmt> {
    let mut parser = parser_for(source);
    let mut out = Vec::new();
    while let Some(stmt) = parser.next() {
        out.push(stmt.unwrap());
    }
    out
}

fn output_of(source: &str) -> Vec<String> {
    let mut lox = Lox::new();
    let mut int = Interpreter::new();
    lox.run(source.to_string(), &mut int, &Ieee).unwrap();
    assert!(!lox.had_error());
    int.take_output()
}

fn error_of(source: &str) -> Error {
    let mut lox = Lox::new();
    let mut int = Interpreter::new();
    lox.run(source.to_string(), &mut int, &Ieee).unwrap_err()
}

#[test]
fn func_nested_funcs() {
    let lox = "
var test = 0;
fun makeCounter() {
  var i = 0;
  fun count() {
    i = i + 1;
    return i;
  }

  return count;
}

var counter = makeCounter();
var test1 = counter();
var test2 = counter();
";
    let mut int = Interpreter::new();
    let mut p = parser_for(lox);
    int.interpret(&p.next().unwrap().unwrap(), &Ieee).unwrap();
    int.interpret(&p.next().unwrap().unwrap(), &Ieee).unwrap();
    int.interpret(&p.next().unwrap().unwrap(), &Ieee).unwrap();

    int.interpret(&p.next().unwrap().unwrap(), &Ieee).unwrap();
    let test = int.env.get("test1").expect("Failed to get test1 from env");
    assert_eq!(test, Value::Number(num(1f64)), "test1 was not 1");
    int.interpret(&p.next().unwrap().unwrap(), &Ieee).unwrap();
    let test2 = int.env.get("test2").expect("Failed to get test2 from env");
    assert_eq!(test2, Value::Number(num(2f64)), "test2 was not 2");
}

#[test]
fn nested_funcs_after_resolving() {
    let lox = "
var test = 0;
fun makeCounter() {
  var i = 0;
  fun count() {
    i = i + 1;
    return i;
  }

  return count;
}

var counter = makeCounter();
test = counter();
test = counter();
";
    let mut int = Interpreter::new();
    let mut stmts = parse_all(lox);
    let mut r = Resolver::new();
    for stmt in stmts.iter_mut() {
        r.resolve_stmt(stmt).unwrap();
    }
    let mut p = stmts.iter();
    int.interpret(p.next().unwrap(), &Ieee).unwrap();
    int.interpret(p.next().unwrap(), &Ieee).unwrap();
    int.interpret(p.next().unwrap(), &Ieee).unwrap();

    int.interpret(p.next().unwrap(), &Ieee).unwrap();
    let test = int.env.get("test").expect("Failed to get test from env");
    assert_eq!(test, Value::Number(num(1f64)));
    int.interpret(p.next().unwrap(), &Ieee).unwrap();
    let test2 = int.env.get("test").expect("Failed to get test from env");
    assert_eq!(test2, Value::Number(num(2f64)));
    println!("test: {:?}", test);
}

#[test]
fn recursive() {
    let lox = "
        fun fib(n) {
            if (n < 2) return n;
            return fib(n - 1) + fib(n - 2);
        }
        var test = fib(4);";
    let mut int = Interpreter::new();
    let mut p = parser_for(lox);
    let fib = p.next().unwrap().expect("failed to define fib");
    int.interpret(&fib, &Ieee).expect("failed to define fib def");
    let test = p.next().unwrap().expect("failed to parse test assignment");
    int.interpret(&test, &Ieee).expect("failed to evalue test assignment");
    let test = int.env.get("test").expect("Failed to get test from env");
    assert_eq!(test, Value::Number(num(3f64)));
}

#[test]
fn interpreter_while_block() {
    let lox = "
var i = 0;
while (i < 100) {
    print i;
    i = i + 1;
}
";
    let mut int = Interpreter::new();
    let mut parser = parser_for(lox);
    while let Some(stmt) = parser.next() {
        int.interpret(&stmt.unwrap(), &Ieee).unwrap();
    }
    let printed = int.take_output();
    assert_eq!(printed.len(), 100);
    assert_eq!(printed[0], "0");
    assert_eq!(printed[99], "99");
}

#[test]
fn interpreter_for_loop() {
    let lox = "
for (var i = 0; i < 10; i = i + 1) {
    print i;
}
";
    let mut int = Interpreter::new();
    let mut parser = parser_for(lox);
    while let Some(stmt) = parser.next() {
        int.interpret(&stmt.unwrap(), &Ieee).unwrap();
    }
    let printed = int.take_output();
    assert_eq!(printed, (0..10).map(|i| i.to_string()).collect::<Vec<String>>());
}

#[test]
fn interpreter_this() {
    let lox = r#"
class Junk {
  stuff() {
    print "stuff";
  }
  things(one) {
    this.one = one;
  }
}
var junk = Junk();
junk.things("hahah");
print junk.one;
"#;
    let mut int = Interpreter::new();
    let mut parser = parser_for(lox);
    while let Some(stmt) = parser.next() {
        int.interpret(&stmt.unwrap(), &Ieee).unwrap();
    }
    assert_eq!(int.take_output(), vec!["hahah".to_string()]);
}

#[test]
fn interpreter_func_if() {
    let lox = "
fun isEven(n) {
    if (mod(n, 2) == 0) {
        return true;
    }
    return false;
}
var pre1 = mod(1, 2) == 0;
var test1 = isEven(1);
var pre2 = mod(2, 2) == 0;
var test2 = isEven(2);
";
    let mut int = Interpreter::new();
    let mut parser = parser_for(lox);
    while let Some(stmt) = parser.next() {
        int.interpret(&stmt.unwrap(), &Ieee).unwrap();
    }
    let test1 = int.env.get("test1").expect("Unable to get test1");
    let pre1 = int.env.get("pre1").expect("Unable to get pre1");
    assert_eq!(test1, pre1);
    let test2 = int.env.get("test2").expect("Unable to get test");
    let pre2 = int.env.get("pre2").expect("Unable to get pre2");
    assert_eq!(test2, pre2);
    assert_eq!(test1, Value::Bool(false));
    assert_eq!(test2, Value::Bool(true));
}

#[test]
fn prints_arithmetic_by_precedence() {
    assert_eq!(output_of("print 1 + 2 * 3;"), vec!["7"]);
}

#[test]
fn prints_concatenated_strings() {
    assert_eq!(
        output_of(r#"var a = "Hello"; var b = ", world"; print a + b;"#),
        vec!["Hello, world"]
    );
}

#[test]
fn closure_counts_across_calls() {
    assert_eq!(
        output_of(
            "fun mk(){var i=0; fun c(){i=i+1; return i;} return c;} var f=mk(); print f(); print f(); print f();"
        ),
        vec!["1", "2", "3"]
    );
}

#[test]
fn initializer_and_method_see_the_instance() {
    assert_eq!(
        output_of(
            "class A{init(x){this.x=x;} get(){return this.x;}} var a=A(42); print a.get();"
        ),
        vec!["42"]
    );
}

#[test]
fn for_loop_sums() {
    assert_eq!(
        output_of("var i=0; for (var j=0; j<3; j=j+1) i = i + j; print i;"),
        vec!["3"]
    );
}

#[test]
fn fib_of_seven() {
    assert_eq!(
        output_of("fun fib(n){ if (n<2) return n; return fib(n-1)+fib(n-2);} print fib(7);"),
        vec!["13"]
    );
}

#[test]
fn interpreter_boundaries() {
    assert!(matches!(error_of(r#"print -"x";"#), Error::Runtime(_)));
    assert_eq!(output_of(r#"print "a"+"b";"#), vec!["ab"]);
    assert!(matches!(error_of(r#"print 1+"x";"#), Error::Runtime(_)));
    assert_eq!(output_of("print nil==nil;"), vec!["true"]);
    assert_eq!(output_of("print nil==0;"), vec!["false"]);
    assert_eq!(output_of("print 1/0;"), vec!["inf"]);
    assert_eq!(output_of("print !(1 != 1); print 1 == 1;"), vec!["true", "true"]);
    assert_eq!(output_of(r#"print !("a" != 1); print "a" == 1;"#), vec!["false", "false"]);
    assert_eq!(output_of("print nil or 3; print 1 and nil; print nil and 1;"), vec![
        "true", "false", "false"
    ]);
    assert_eq!(output_of("print clock(); print mod(7, 4);"), vec!["1234.5", "3"]);
    assert!(matches!(error_of("print x;"), Error::Runtime(_)));
    assert!(matches!(error_of("x = 1;"), Error::Runtime(_)));
    assert!(matches!(error_of("fun f(a){} f();"), Error::Runtime(_)));
    assert!(matches!(error_of("var a = 1; a();"), Error::Runtime(_)));
    assert!(matches!(error_of("class A{} var a = A(); print a.x;"), Error::Runtime(_)));
    assert!(matches!(error_of(r#"mod("a", 1);"#), Error::Runtime(_)));
}

#[test]
fn functions_change_globals_and_keep_the_callers_frames() {
    assert_eq!(
        output_of("var g = 0; fun inc() { g = g + 1; } { var local = 5; inc(); inc(); print local; } print g;"),
        vec!["5", "2"]
    );
    let mut int = Interpreter::new();
    let stmts = parse_all("fun f(a) { var b = a; return b; } var r = f(3);");
    let before = int.env.depth();
    for s in &stmts {
        int.interpret(s, &Ieee).unwrap();
    }
    assert_eq!(int.env.depth(), before);
    assert_eq!(int.env.get("r").unwrap(), Value::Number(num(3.0)));
    assert!(int.env.get("a").is_err());
    assert!(int.env.get("b").is_err());
}

#[test]
fn budget_ends_endless_loops() {
    let mut int = Interpreter::new();
    int.budget = 1000;
    let stmts = parse_all("while (true) {}");
    let before = int.env.depth();
    match int.interpret(&stmts[0], &Ieee) {
        Err(Error::Runtime(msg)) => assert_eq!(msg, "out of steps"),
        other => panic!("unexpected {:?}", other),
    }
    assert_eq!(int.budget, 0);
    assert_eq!(int.env.depth(), before);
}

#[test]
fn return_outside_function_is_an_error() {
    let mut int = Interpreter::new();
    let stmts = parse_all("return 1;");
    match int.interpret(&stmts[0], &Ieee) {
        Err(Error::Runtime(msg)) => assert_eq!(msg, "return outside function"),
        other => panic!("unexpected {:?}", other),
    }
    assert!(matches!(error_of("return 1;"), Error::Resolution(_)));
}

#[test]
fn parser_assignment_is_right_associative() {
    let stmts = parse_all("a = b = c;");
    match &stmts[0] {
        Stmt::Expr(Expr::Assign { name, value, depth }) => {
            assert_eq!(name, "a");
            assert_eq!(*depth, None);
            match &**value {
                Expr::Assign { name, value, .. } => {
                    assert_eq!(name, "b");
                    assert!(matches!(&**value, Expr::Var { name, .. } if name == "c"));
                }
                other => panic!("unexpected {:?}", other),
            }
        }
        other => panic!("unexpected {:?}", other),
    }
}

#[test]
fn parser_rejects_assignment_to_what_is_no_variable() {
    let mut p = parser_for("1 = 2;");
    assert!(matches!(p.next().unwrap(), Err(Error::Parser(_))));
    let mut p = parser_for("a + b = 2;");
    assert!(matches!(p.next().unwrap(), Err(Error::Parser(_))));
    let stmts = parse_all("a.b = 2;");
    assert!(matches!(&stmts[0], Stmt::Expr(Expr::Put { name, .. }) if name == "b"));
}

#[test]
fn parser_limits_parameters_and_arguments() {
    let params = |n: usize| (0..n).map(|i| format!("p{}", i)).collect::<Vec<_>>().join(", ");
    let ok = format!("fun f({}) {{}}", params(255));
    match &parse_all(&ok)[0] {
        Stmt::Func(f) => assert_eq!(f.params.len(), 255),
        other => panic!("unexpected {:?}", other),
    }
    let bad = format!("fun f({}) {{}}", params(256));
    let mut p = parser_for(&bad);
    assert!(matches!(p.next().unwrap(), Err(Error::Parser(_))));
    let call = format!("f({});", params(256));
    let mut p = parser_for(&call);
    assert!(matches!(p.next().unwrap(), Err(Error::Parser(_))));
    let call = format!("f({});", params(255));
    assert_eq!(parse_all(&call).len(), 1);
}

#[test]
fn parser_rewrites_for_loops() {
    let stmts = parse_all("for (var i = 0; i < 3; i = i + 1) print i;");
    match &stmts[0] {
        Stmt::Block(outer) => {
            assert_eq!(outer.len(), 2);
            assert!(matches!(&outer[0], Stmt::Var { name, .. } if name == "i"));
            match &outer[1] {
                Stmt::While { body, .. } => match &**body {
                    Stmt::Block(inner) => {
                        assert_eq!(inner.len(), 2);
                        assert!(matches!(&inner[0], Stmt::Print(_)));
                        assert!(matches!(&inner[1], Stmt::Expr(Expr::Assign { .. })));
                    }
                    other => panic!("unexpected {:?}", other),
                },
                other => panic!("unexpected {:?}", other),
            }
        }
        other => panic!("unexpected {:?}", other),
    }
    let stmts = parse_all("for (;;) print 1;");
    match &stmts[0] {
        Stmt::Block(outer) => {
            assert_eq!(outer.len(), 1);
            match &outer[0] {
                Stmt::While { test, body } => {
                    assert!(matches!(test, Expr::Literal(Literal::Bool(true))));
                    assert!(matches!(&**body, Stmt::Block(inner) if inner.len() == 1));
                }
                other => panic!("unexpected {:?}", other),
            }
        }
        other => panic!("unexpected {:?}", other),
    }
}

#[test]
fn parser_goes_on_behind_an_error() {
    let mut lox = Lox::new();
    let mut int = Interpreter::new();
    lox.run("print 1 +; print 2; var = 3; print 4;".to_string(), &mut int, &Ieee).unwrap();
    assert!(lox.had_error());
    assert!(int.take_output().is_empty());
    let reports = lox.take_reports();
    assert_eq!(reports.len(), 2);
    assert_eq!(reports[0], "[line 1] Error : Parser error: Unexpected expression");
    assert_eq!(lox.exit_code(&Ok(())), 65);
    lox.reset();
    assert_eq!(lox.exit_code(&Ok(())), 0);
    assert_eq!(lox.exit_code(&Err(Error::Runtime("x".to_string()))), 70);
    assert_eq!(lox.exit_code(&Err(Error::Scanner("x".to_string()))), 65);
}

#[test]
fn scanner_holds_one_token_ready() {
    let mut s = Scanner::new("var x = \"hi\" 1.5".to_string()).unwrap();
    assert!(s.lookahead_matches(TokenType::Var));
    assert!(!s.done());
    let t = s.next().unwrap().unwrap();
    assert_eq!(t.kind, TokenType::Var);
    assert_eq!((t.lexeme.as_str(), t.line, t.span), ("var", 1, (0, 3)));
    assert!(s.lookahead_matches(TokenType::Identifier("x".to_string())));
    assert!(s.lookahead_is(Kind::Identifier));
    assert_eq!(s.next().unwrap().unwrap().kind, TokenType::Identifier("x".to_string()));
    assert_eq!(s.next().unwrap().unwrap().kind, TokenType::Equal);
    let t = s.next().unwrap().unwrap();
    assert_eq!(t.kind, TokenType::String("hi".to_string()));
    assert_eq!(t.lexeme, "\"hi\"");
    assert_eq!(t.span, (8, 12));
    assert_eq!(s.next().unwrap().unwrap().kind, TokenType::Number("1.5".to_string()));
    assert!(s.done());
    assert!(s.next().is_none());
    assert!(matches!(Scanner::new("@".to_string()), Err(Error::Scanner(_))));
    let mut s = Scanner::new("a @ b".to_string()).unwrap();
    assert!(matches!(s.next(), Some(Err(Error::Scanner(_)))));
    assert_eq!(s.scan_tokens().unwrap().len(), 2);
    assert_eq!(Scanner::new("a b c".to_string()).unwrap().scan_tokens().unwrap().len(), 3);
}

#[test]
fn resolver_writes_hops_and_leaves_globals_alone() {
    let mut stmts = parse_all("var g = 1; { var a = 2; { var b = a + g; a = b; } }");
    let mut r = Resolver::new();
    r.resolve_stmt_list(&mut stmts).unwrap();
    assert!(r.scopes.is_empty());
    let inner = match &stmts[1] {
        Stmt::Block(outer) => match &outer[1] {
            Stmt::Block(inner) => inner,
            other => panic!("unexpected {:?}", other),
        },
        other => panic!("unexpected {:?}", other),
    };
    match &inner[0] {
        Stmt::Var { value: Some(Expr::Binary { left, right, .. }), .. } => {
            assert!(matches!(&**left, Expr::Var { name, depth: Some(1) } if name == "a"));
            assert!(matches!(&**right, Expr::Var { name, depth: None } if name == "g"));
        }
        other => panic!("unexpected {:?}", other),
    }
    match &inner[1] {
        Stmt::Expr(Expr::Assign { name, depth, value }) => {
            assert_eq!((name.as_str(), *depth), ("a", Some(1)));
            assert!(matches!(&**value, Expr::Var { name, depth: Some(0) } if name == "b"));
        }
        other => panic!("unexpected {:?}", other),
    }
    let first = format!("{:?}", stmts);
    let mut again = Resolver::new();
    again.resolve_stmt_list(&mut stmts).unwrap();
    assert_eq!(first, format!("{:?}", stmts));
}

#[test]
fn resolver_rules() {
    let fails = |source: &str| {
        let mut stmts = parse_all(source);
        matches!(Resolver::new().resolve_stmt_list(&mut stmts), Err(Error::Resolution(_)))
    };
    assert!(fails("{ var x = x; }"));
    assert!(!fails("var x = x;"));
    assert!(fails("{ var x = 1; var x = 2; }"));
    assert!(!fails("var x = 1; var x = 2;"));
    assert!(fails("return 1;"));
    assert!(!fails("fun f() { return 1; }"));
    assert!(fails("class A { init() { return 1; } }"));
    assert!(!fails("class A { init() { return; } m() { return 1; } }"));
    assert!(fails("fun f(a, a) {}"));
    assert!(fails("fun f(a) { var a = 1; }"));
    assert!(!fails("fun f(a) { { var a = 1; } }"));
    let mut r = Resolver::new();
    assert_eq!(r.current_func, FuncType::Script);
    r.begin_scope();
    r.declare("a").unwrap();
    assert!(r.declare("a").is_err());
    assert_eq!(r.scopes[0], vec![("a".to_string(), false)]);
    r.define("a");
    r.define("b");
    assert_eq!(r.scopes[0], vec![("a".to_string(), true)]);
    r.begin_scope();
    assert_eq!(r.resolve_local("a"), Some(1));
    assert_eq!(r.resolve_local("zz"), None);
    r.end_scope();
    assert_eq!(r.resolve_local("a"), Some(0));
}

#[test]
fn environment_frames() {
    let mut env = Env::root();
    assert_eq!(env.depth(), 2);
    assert!(env.get("clock").is_ok());
    assert!(env.get("mod").is_ok());
    env.define("a", Some(Value::Bool(true)));
    env.define("n", None);
    assert_eq!(env.get("n").unwrap(), Value::Nil);
    env.descend();
    env.define("a", Some(Value::Bool(false)));
    assert_eq!(env.get("a").unwrap(), Value::Bool(false));
    assert_eq!(env.get_at("a", Some(1)).unwrap(), Value::Bool(true));
    assert_eq!(env.get_at("a", Some(0)).unwrap(), Value::Bool(false));
    assert_eq!(env.get_at("a", Some(7)).unwrap(), Value::Bool(false));
    assert_eq!(env.find("a", None), Some(2));
    assert_eq!(env.assign_at("a", Some(1), Value::Nil).unwrap(), Value::Nil);
    assert_eq!(env.get("a").unwrap(), Value::Bool(false));
    env.ascend();
    assert_eq!(env.get("a").unwrap(), Value::Nil);
    match env.assign("zz", Value::Nil) {
        Err(Error::Runtime(msg)) => assert_eq!(msg, "variable \"zz\" is not yet defined"),
        other => panic!("unexpected {:?}", other),
    }
    env.descend();
    env.define("x", Some(Value::Bool(true)));
    env.descend();
    let copy = env.clone_to_base();
    assert_eq!(copy.depth(), 2);
    let tail = env.split_to_base();
    assert_eq!((env.depth(), tail.depth()), (2, 2));
    assert!(env.get("x").is_err());
    env.append(tail);
    assert_eq!(env.depth(), 4);
    assert_eq!(env.get("x").unwrap(), Value::Bool(true));
    let none = env.split(4);
    assert_eq!(none.depth(), 1);
    assert_eq!(env.detach(4).depth(), 0);
    assert_eq!(Env::new(3).depth(), 4);
    let mut one = Env::new(0);
    one.define("k", None);
    one.ascend();
    assert_eq!(one.depth(), 1);
    assert!(one.get("k").is_err());
}

#[test]
fn prompt_collects_statements() {
    let mut p = Prompt::new();
    assert_eq!(p.prompt(), "> ");
    assert_eq!(p.feed("print 1;\r\n"), Some("print 1;\n".to_string()));
    assert_eq!(p.feed("fun f() {\n"), None);
    assert_eq!(p.indent(), 1);
    assert_eq!(p.prompt(), "  ");
    assert_eq!(p.feed("  if (a) {\n"), None);
    assert_eq!(p.prompt(), "    ");
    assert_eq!(p.feed("  }\n"), None);
    assert_eq!(p.feed("  return 1;\n"), None);
    assert_eq!(p.feed("}\n"), None);
    assert_eq!(p.indent(), 0);
    assert_eq!(
        p.feed("\n"),
        Some("fun f() {\n  if (a) {\n  }\n  return 1;\n}\n\n".to_string())
    );
    assert_eq!(p.feed("}\n"), None);
    assert_eq!(p.indent(), 0);
    assert_eq!(p.feed("var a = 1\n"), None);
    assert_eq!(p.feed("   \n"), Some("}\nvar a = 1\n   \n".to_string()));
}

#[test]
fn values_print_as_text() {
    assert_eq!(show(&Value::String("a b".to_string()), &Ieee), "a b");
    assert_eq!(show(&Value::Number(num(2.5)), &Ieee), "2.5");
    assert_eq!(show(&Value::Bool(false), &Ieee), "false");
    assert_eq!(show(&Value::Nil, &Ieee), "nil");
    assert_eq!(show(&Value::clock(), &Ieee), "[native fn clock]");
    assert_eq!(show(&Value::modulo(), &Ieee), "[native fn mod]");
    assert_eq!(output_of("fun f(){} print f; class A{} print A; print A();"), vec![
        "[fn f]", "[ctor A]", "[A instance]"
    ]);
    assert_eq!(Error::Parser("p".to_string()).to_string(), "Parser error: p");
    assert_eq!(Error::Scanner("s".to_string()).to_string(), "Scanning error: s");
    assert_eq!(Error::Resolution("r".to_string()).to_string(), "Resolution error: r");
    assert_eq!(Error::Runtime("r".to_string()).to_string(), "Runtime error: r");
    assert_eq!(
        Error::Return(Value::Nil).to_string(),
        "Runtime error: return outside function"
    );
}

#[test]
fn instances_keep_fields_and_methods_apart() {
    assert_eq!(
        output_of(
            "class P { init(x) { this.x = x; this.y = 0; } move(d) { this.x = this.x + d; return this.x; } }
             var p = P(1); print p.move(2); print p.x; p.y = 7; print p.y; var q = p; q.x = 100; print p.x; print q.x;"
        ),
        vec!["3", "3", "7", "3", "100"]
    );
}

#[test]
fn properties_are_stored_along_the_path() {
    assert_eq!(
        output_of(
            "class Box { } var a = Box(); a.inner = Box(); a.inner.v = 1; a.inner.inner = Box();
             a.inner.inner.v = 2; print a.inner.v; print a.inner.inner.v; a.inner.v = a.inner.v + 10; print a.inner.v;"
        ),
        vec!["1", "2", "11"]
    );
    assert!(matches!(error_of("var n = 1; n.x.y = 2;"), Error::Runtime(_)));
    assert!(matches!(error_of("zz.x = 2;"), Error::Runtime(_)));
    assert!(matches!(error_of("1.x = 2;"), Error::Parser(_) | Error::Runtime(_)));
}

#[test]
fn methods_call_each_other_through_this() {
    assert_eq!(
        output_of(
            "class C { init() { this.n = 0; } bump() { this.n = this.n + 1; return this.n; }
               twice() { this.bump(); return this.bump(); } }
             var c = C(); print c.twice(); print c.n; print c.bump();"
        ),
        vec!["2", "2", "3"]
    );
}

#[test]
fn closures_keep_their_own_frames() {
    assert_eq!(
        output_of(
            "fun mk(){var i=0; fun c(){i=i+1; return i;} return c;}
             var f=mk(); var g=mk(); print f(); print f(); print g(); print f();"
        ),
        vec!["1", "2", "1", "3"]
    );
}

#[test]
fn copies_of_declarations_keep_what_they_hold() {
    let stmts = parse_all("fun f(a, b) { if (a) { return b; } else { print a.x(1, b); } }");
    let copy = stmts[0].duplicate();
    assert_eq!(format!("{:?}", stmts[0]), format!("{:?}", copy));
}

#[test]
fn scanning_a_whole_source() {
    let mut s = Scanner::new("a + 1".to_string()).unwrap();
    let all = s.scan_tokens().unwrap();
    assert_eq!(all.len(), 3);
    assert!(s.done());
    let mut s = Scanner::new("a @".to_string()).unwrap();
    assert!(matches!(s.scan_tokens(), Err(Error::Scanner(_))));
}

#[test]
fn nothing_runs_where_a_statement_breaks_a_rule_of_scoping() {
    let mut lox = Lox::new();
    let mut int = Interpreter::new();
    let r = lox.run("print 1; { var x = x; } print 2;".to_string(), &mut int, &Ieee);
    assert!(matches!(r, Err(Error::Resolution(_))));
    assert!(int.take_output().is_empty());
    assert!(!lox.had_error());
    let r = lox.run("print 1; print nil + 1; print 2;".to_string(), &mut int, &Ieee);
    assert!(matches!(r, Err(Error::Runtime(_))));
    assert_eq!(int.take_output(), vec!["1"]);
    let stmts = parse_all("var a = 2; print a * 3;");
    assert!(Lox::resolve_and_run(stmts, &mut int, &Ieee).is_ok());
    assert_eq!(int.take_output(), vec!["6"]);
    let stmts = parse_all("print 7; print zz;");
    assert!(matches!(Lox::run_in_turn(&stmts, &mut int, &Ieee), Err(Error::Runtime(_))));
    assert_eq!(int.take_output(), vec!["7"]);
}

#[test]
fn this_can_stand_left_of_an_assignment() {
    let stmts = parse_all("this = 1;");
    assert!(matches!(
        &stmts[0],
        Stmt::Expr(Expr::Assign { name, depth: None, .. }) if name == "this"
    ));
    assert_eq!(
        output_of(
            "class B { init(v) { this.v = v; } }
             class A { init() { this.v = 1; } take(o) { this = o; return this.v; } }
             var a = A(); var b = B(7); print a.take(b); print b.v;"
        ),
        vec!["7", "7"]
    );
    assert!(matches!(error_of("this = 1;"), Error::Runtime(_)));
}
