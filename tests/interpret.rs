use std::rc::Rc;
use teko::interpret::initialize_environment_with_standard_library;
use teko::interpret::{eval, interpret};
use teko::integer::Integer;
use teko::data_structures::{Complex, Coredata, Node, Rational, Sourcedata};
use teko::parse::parse_string;
use teko::store::Env;

fn run(text: &str) -> Env {
    interpret(parse_string(text).ok().unwrap())
}

fn integer_text(node: &Node) -> String {
    match &node.1 {
        Coredata::Integer(_) => node.to_text(),
        _ => panic!("expected an integer, got {}", node.to_text()),
    }
}

fn error_payload(node: &Node) -> Node {
    match &node.1 {
        Coredata::Error(payload) => payload.clone(),
        _ => panic!("expected an error, got {}", node.to_text()),
    }
}

fn error_message(node: &Node) -> String {
    match &error_payload(node).1 {
        Coredata::String(message) => message.clone(),
        _ => panic!("expected a message"),
    }
}

fn is_bound(env: &Env, name: &str) -> bool {
    env.store.bindings.iter().any(|b| b.name == name)
}

#[test]
fn interpret_test_interpreter() {
    let env = run("(define add (fn (a b) (+ a b))) (add 40 2)");
    assert_eq!(integer_text(&env.result), "42");
}

#[test]
fn sums_its_arguments() {
    let env = run("(+ 1 2 4)");
    assert_eq!(integer_text(&env.result), "7");
}

#[test]
fn value_of_the_last_form() {
    let env = run("(+ 1 2) (+ 1 2)");
    assert_eq!(integer_text(&env.result), "3");
    let env = run("(+ 1 2 4) (+ 1 2)");
    assert_eq!(integer_text(&env.result), "3");
}

#[test]
fn eval_in_a_given_environment() {
    let program = parse_string("(+ 1 2 4) (+ 1 2)").ok().unwrap();
    let env = eval(program, initialize_environment_with_standard_library());
    assert_eq!(integer_text(&env.result), "3");
}

#[test]
fn tail_calls_run_in_bounded_space() {
    let env = run(
        "(define count (fn (n) (if (= n 0) (+ 0 0) (count (- n 1))))) (count 100000)",
    );
    assert_eq!(integer_text(&env.result), "0");
    assert!(!is_bound(&env, "n"));
    assert!(env.params.is_empty());
}

#[test]
fn tail_call_keeps_the_outer_binding() {
    let env = run(
        "(define n 7) (define count (fn (n) (if (= n 0) n (count (- n 1))))) (count 50) n",
    );
    assert_eq!(integer_text(&env.result), "7");
    let stack = &env.store.bindings.iter().find(|b| b.name == "n").unwrap().stack;
    assert_eq!(stack.len(), 1);
}

#[test]
fn unbound_name_is_an_error() {
    let env = run("(foo)");
    assert!(error_message(&env.result).contains("does not exist"));
    assert!(error_message(&env.result).contains("foo"));
}

#[test]
fn error_inside_wind_stops_there() {
    let env = run("(wind (error 1))");
    assert_eq!(integer_text(&error_payload(&env.result)), "1");
}

#[test]
fn unwind_tears_down_bindings() {
    let env = run("(define f (fn (x) (error x))) (wind (f 5))");
    assert_eq!(integer_text(&error_payload(&env.result)), "5");
    assert!(!is_bound(&env, "x"));
    assert!(env.params.is_empty());
}

#[test]
fn code_after_wind_sees_the_error() {
    let env = run("(wind (error 1) 2) 3");
    assert_eq!(integer_text(&env.result), "3");
}

#[test]
fn error_without_wind_ends_the_program() {
    let env = run("(error 1) 2");
    assert_eq!(integer_text(&error_payload(&env.result)), "1");
}

#[test]
fn error_with_several_arguments_carries_a_list() {
    let env = run("(error 1 2)");
    let payload = error_payload(&env.result);
    assert_eq!(payload.to_text(), "(1 (2 ()))");
}

#[test]
fn too_few_arguments_is_an_arity_error() {
    let env = run("(define f (fn (a b) a)) (f 1)");
    assert_eq!(
        error_message(&env.result),
        "during library function call: arity mismatch"
    );
}

#[test]
fn calling_a_number_is_an_error() {
    let env = run("(1 2)");
    assert_eq!(error_message(&env.result), "element not callable");
}

#[test]
fn head_and_tail_of_a_pair() {
    let head: Node = Rc::new(Sourcedata(None, Coredata::Symbol("h".to_string())));
    let tail: Node = Rc::new(Sourcedata(None, Coredata::Null));
    let pair = Sourcedata(None, Coredata::Pair(head.clone(), tail.clone()));
    assert!(Rc::ptr_eq(&pair.head(), &head));
    assert!(Rc::ptr_eq(&pair.tail(), &tail));
    let null = Sourcedata(None, Coredata::Null);
    assert!(matches!(null.head().1, Coredata::Null));
    assert!(matches!(null.tail().1, Coredata::Null));
}

#[test]
fn head_tail_and_pair_builtins() {
    let env = run("(head (pair 1 2))");
    assert_eq!(integer_text(&env.result), "1");
    let env = run("(tail (pair 1 2))");
    assert_eq!(integer_text(&env.result), "2");
    let env = run("(head (' (5 6)))");
    assert!(matches!(&env.result.1, Coredata::Symbol(name) if name == "5"));
}

#[test]
fn builtin_errors_carry_messages() {
    let env = run("(+ 1 (' a))");
    assert_eq!(error_message(&env.result), "+ expects integers");
    let env = run("(head 1 2)");
    assert_eq!(error_message(&env.result), "head expects one argument");
    let env = run("(pair 1)");
    assert_eq!(error_message(&env.result), "pair expects two arguments");
    let env = run("(if)");
    assert_eq!(
        error_message(&env.result),
        "if expects a condition and one or two branches"
    );
}

#[test]
fn subtraction_and_negation() {
    assert_eq!(integer_text(&run("(- 10 1 2)").result), "7");
    assert_eq!(integer_text(&run("(- 5)").result), "-5");
    assert_eq!(integer_text(&run("(-)").result), "0");
}

#[test]
fn only_false_is_falsy() {
    assert_eq!(integer_text(&run("(if false 1 2)").result), "2");
    assert_eq!(integer_text(&run("(if (' ()) 1 2)").result), "1");
    assert_eq!(integer_text(&run("(if (= 1 1) 1 2)").result), "1");
    assert_eq!(integer_text(&run("(if (= 1 2) 1 2)").result), "2");
    assert_eq!(run("(= 3 3 4)").result.to_text(), "false");
    assert!(matches!(run("(if false 1)").result.1, Coredata::Null));
}

#[test]
fn library_macros_get_their_arguments_unevaluated() {
    let env = run("(define second (mo args (head (tail args)))) (second (undefined) (+ 2 3))");
    assert_eq!(integer_text(&env.result), "5");
}

#[test]
fn large_integers_keep_every_digit() {
    let env = run("(+ 99999999999999999999999 1)");
    assert_eq!(integer_text(&env.result), "100000000000000000000000");
    let env = run("1_000");
    assert_eq!(integer_text(&env.result), "1000");
}

#[test]
fn integer_literals_win_over_bindings() {
    let env = run("(define x 5) -12");
    assert_eq!(integer_text(&env.result), "-12");
}

#[test]
fn integer_arithmetic_and_literals() {
    assert_eq!(integer_text(&run("(+ -12 5)").result), "-7");
    assert_eq!(integer_text(&run("(- -12 5)").result), "-17");
    assert_eq!(integer_text(&run("+4").result), "4");
    assert!(error_message(&run("-+5").result).contains("does not exist"));
    assert!(error_message(&run("_5").result).contains("does not exist"));
    assert!(error_message(&run("abc").result).contains("does not exist"));
}

#[test]
fn printed_forms() {
    assert_eq!(run("(' (1 2))").result.to_text(), "(1 (2 ()))");
    assert_eq!(run("true").result.to_text(), "true");
    assert_eq!(run("(error 1)").result.to_text(), "(error 1)");
}

#[test]
fn printed_numbers() {
    let half = || Rational {
        numerator: Integer { negative: false, magnitude: vec![1] },
        denominator: Integer { negative: false, magnitude: vec![2] },
    };
    let r = Sourcedata(None, Coredata::Rational(half()));
    assert_eq!(r.to_text(), "1/2");
    let c = Sourcedata(None, Coredata::Complex(Complex { real: half(), imaginary: half() }));
    assert_eq!(c.to_text(), "1/2+1/2i");
}
