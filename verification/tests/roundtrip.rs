use rox::bytecode::vm::VM;
use rox::number::{ArithOp, Arithmetic, Chars, Number};
use rox::treewalk::interpreter::Interpreter;
use rox::treewalk::lox::Lox;

struct Ieee;

fn num(x: f64) -> Number {
    Number::from_bits(x.to_bits())
}

fn float(n: Number) -> f64 {
    f64::from_bits(n.to_bits())
}

impl Arithmetic for Ieee {
    fn parse(&self, literal: &str) -> Number {
        num(literal.parse::<f64>().unwrap_or(f64::NAN))
    }

    fn apply(&self, op: ArithOp, lhs: Number, rhs: Number) -> Number {
        let (l, r) = (float(lhs), float(rhs));
        num(match op {
            ArithOp::Add => l + r,
            ArithOp::Sub => l - r,
            ArithOp::Mul => l * r,
            ArithOp::Div => l / r,
            ArithOp::Rem => l % r,
        })
    }

    fn render(&self, n: Number) -> String {
        format!("{}", float(n))
    }

    fn parsed(&self, _literal: Chars) -> Number {
        unreachable!("contracts speak of this, programs do not call it")
    }

    fn applied(&self, _op: ArithOp, _lhs: Number, _rhs: Number) -> Number {
        unreachable!("contracts speak of this, programs do not call it")
    }

    fn rendered(&self, _n: Number) -> Chars {
        unreachable!("contracts speak of this, programs do not call it")
    }

    fn clock(&self) -> Number {
        num(0.0)
    }
}

fn by_machine(expr: &str) -> Vec<String> {
    let mut vm = VM::new();
    vm.interpret(expr, &Ieee).unwrap();
    vm.take_output()
}

fn by_tree(expr: &str) -> Vec<String> {
    let mut lox = Lox::new();
    let mut int = Interpreter::new();
    lox.run(format!("print {};", expr), &mut int, &Ieee).unwrap();
    assert!(!lox.had_error());
    int.take_output()
}

#[test]
fn both_paths_print_the_same() {
    for expr in [
        "1 + 2 * 3",
        "(1 + 2) * 3",
        "10 - 4 - 3",
        "2 * 3 / 4",
        "-3 + 1",
        "--3",
        "1 / 0",
        "1 < 2",
        "2 <= 1",
        "3 > 2 == true",
        "1 >= 1",
        "1 != 1",
        "nil == nil",
        "nil == 0",
        "!nil",
        "!0",
        "!(1 != 2)",
        "!(5 - 4 > 3 * 2 == !nil)",
        "\"a\" + \"b\"",
        "\"a\" == \"a\"",
        "\"a\" != \"b\"",
        "true == false",
        "0.5 + 0.25",
    ] {
        assert_eq!(by_machine(expr), by_tree(expr), "for {}", expr);
    }
    assert_eq!(by_machine("1 + 2 * 3"), vec!["7"]);
    assert_eq!(by_tree("\"Hello\" + \", world\""), vec!["Hello, world"]);
}

#[test]
fn both_paths_fail_on_the_same_operands() {
    for expr in ["-\"x\"", "1 + \"x\"", "\"a\" - \"b\"", "nil < 1", "true * 2"] {
        let mut vm = VM::new();
        assert!(vm.interpret(expr, &Ieee).is_err(), "for {}", expr);
        let mut lox = Lox::new();
        let mut int = Interpreter::new();
        assert!(lox.run(format!("print {};", expr), &mut int, &Ieee).is_err(), "for {}", expr);
    }
}

#[test]
fn both_paths_fail_where_operands_are_no_numbers() {
    assert_eq!(by_machine("0 / 0 >= 1"), vec!["true"]);
    assert_eq!(by_tree("0 / 0 >= 1"), vec!["true"]);
    assert_eq!(by_machine("0 / 0 <= 1"), by_tree("0 / 0 <= 1"));
    assert_eq!(by_machine("0 / 0 < 1"), vec!["false"]);
    assert_eq!(by_tree("0 / 0 < 1"), vec!["false"]);
    assert_eq!(by_tree("2 >= 1"), vec!["true"]);
    assert_eq!(by_tree("1 >= 2"), vec!["false"]);
    assert_eq!(by_tree("1 <= 1"), vec!["true"]);
    assert_eq!(by_machine("2 <= 1"), vec!["false"]);
    for expr in ["nil + nil", "\"a\" < \"b\"", "true < false", "nil > nil", "true >= true"] {
        let mut vm = VM::new();
        assert!(vm.interpret(expr, &Ieee).is_err(), "for {}", expr);
        assert!(vm.take_output().is_empty(), "for {}", expr);
        let mut lox = Lox::new();
        let mut int = Interpreter::new();
        assert!(lox.run(format!("print {};", expr), &mut int, &Ieee).is_err(), "for {}", expr);
    }
}

#[test]
fn equal_is_not_unequal_on_both_paths() {
    let values = ["1", "2", "0 / 0", "nil", "true", "false", "\"a\"", "\"b\"", "-0", "0"];
    for a in values {
        for b in values {
            let equal = format!("{} == {}", a, b);
            let unequal = format!("!({} != {})", a, b);
            assert_eq!(by_machine(&equal), by_machine(&unequal), "for {} and {}", a, b);
            assert_eq!(by_tree(&equal), by_tree(&unequal), "for {} and {}", a, b);
            assert_eq!(by_machine(&equal), by_tree(&equal), "for {} and {}", a, b);
        }
    }
    assert_eq!(by_tree("0 / 0 == 0 / 0"), vec!["false"]);
    assert_eq!(by_tree("-0 == 0"), vec!["true"]);
    assert_eq!(by_machine("nil == false"), vec!["false"]);
}
