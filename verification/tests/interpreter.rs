use mal::eval::{eval, re, Status};
use mal::machine::{Interp, Reply, Request};
use mal::printer::to_text;
use mal::reader::read_str;
use mal::value::Value;

const FUEL: u64 = 10_000_000;

fn drive(interp: &mut Interp, first: Status, out: &mut Vec<String>) -> Result<Value, Value> {
    let mut status = first;
    loop {
        match status {
            Status::Done(r) => return r,
            Status::Waiting(Request::Print(line)) => {
                out.push(line);
                interp.resume(Reply::Printed);
            }
            Status::Waiting(Request::ReadLine(prompt)) => {
                if prompt == "eof> " {
                    interp.resume(Reply::Line(None));
                } else {
                    interp.resume(Reply::Line(Some("typed line\n".to_string())));
                }
            }
            Status::Waiting(Request::ReadFile(name)) => {
                if name == "inc.mal" {
                    interp.resume(Reply::File(Ok("(def! inc (fn* (x) (+ x 1)))\n(inc 41)".to_string())));
                } else {
                    interp.resume(Reply::File(Err("No such file".to_string())));
                }
            }
            Status::Waiting(Request::Clock) => interp.resume(Reply::Millis(1234)),
            Status::Running => {}
        }
        status = interp.run(FUEL);
    }
}

fn booted() -> Interp {
    let mut interp = Interp::new();
    assert!(interp.boot(FUEL));
    interp
}

fn rep_with(interp: &mut Interp, src: &str, out: &mut Vec<String>) -> String {
    match re(interp, src, 0, FUEL) {
        Ok(Some(status)) => match drive(interp, status, out) {
            Ok(v) => to_text(&v, &interp.heap.atoms, true),
            Err(e) => format!("ERROR: {}", to_text(&e, &interp.heap.atoms, true)),
        },
        Ok(None) => String::new(),
        Err(e) => format!("PARSE: {}", e.message()),
    }
}

fn rep(interp: &mut Interp, src: &str) -> String {
    let mut out = Vec::new();
    rep_with(interp, src, &mut out)
}

fn one(src: &str) -> String {
    let mut interp = booted();
    rep(&mut interp, src)
}

#[test]
fn adds_two_numbers() {
    assert_eq!(one("(+ 1 2)"), "3");
}

#[test]
fn fib_of_ten() {
    let mut interp = booted();
    assert_eq!(
        rep(&mut interp, "(def! fib (fn* (n) (if (< n 2) n (+ (fib (- n 1)) (fib (- n 2))))))"),
        "#<function>"
    );
    assert_eq!(rep(&mut interp, "(fib 10)"), "55");
}

#[test]
fn let_binds_in_order() {
    assert_eq!(one("(let* (a 1 b (+ a 1)) (* a b))"), "2");
}

#[test]
fn quasiquote_with_unquote_and_splice() {
    assert_eq!(one("`(1 ~(+ 1 1) ~@(list 3 4) 5)"), "(1 2 3 4 5)");
}

#[test]
fn nth_out_of_bounds_is_caught() {
    assert_eq!(
        one("(try* (nth (list 1) 5) (catch* e (str \"caught: \" e)))"),
        "\"caught: index out of bounds: length is 1, got 5\""
    );
}

#[test]
fn variadic_parameters_collect_the_rest() {
    assert_eq!(one("((fn* (& xs) (count xs)) 1 2 3 4)"), "4");
    assert_eq!(one("((fn* (a & xs) xs) 1)"), "()");
    assert_eq!(one("((fn* (a & xs) (list a xs)) 1 2 3)"), "(1 (2 3))");
}

#[test]
fn list_equals_vector_with_same_items() {
    assert_eq!(one("(= (list 1 2 3) [1 2 3])"), "true");
    assert_eq!(one("(= [1 2 3] (list 1 2 3))"), "true");
    assert_eq!(one("(= (list 1 \"a\" :k) [1 \"a\" :k])"), "true");
    assert_eq!(one("(= (list 1 2) [1 2 3])"), "false");
    assert_eq!(one("(= (list (list 1) [2]) [[1] (list 2)])"), "true");
}

#[test]
fn tail_calls_do_not_grow_the_pending_work() {
    let mut interp = booted();
    rep(&mut interp, "(def! f (fn* (n) (if (= n 0) :done (f (- n 1)))))");
    assert_eq!(rep(&mut interp, "(f 10000)"), ":done");
    assert_eq!(interp.stack.len(), 0);
}

#[test]
fn tail_call_keeps_the_stack_flat_while_running() {
    let mut interp = booted();
    rep(&mut interp, "(def! f (fn* (n) (if (= n 0) :done (f (- n 1)))))");
    let ast = read_str("(f 500)").unwrap();
    interp.start(ast, 0);
    let mut deepest = 0;
    loop {
        match interp.run(1) {
            Status::Done(r) => {
                assert_eq!(r.unwrap(), read_str(":done").unwrap());
                break;
            }
            _ => {}
        }
        if interp.stack.len() > deepest {
            deepest = interp.stack.len();
        }
    }
    assert!(deepest <= 2, "deepest was {}", deepest);
}

#[test]
fn tail_call_takes_a_fixed_number_of_steps_per_round() {
    let mut interp = Interp::new();
    let def = read_str("(def! f (fn* (n) (if (= n 0) :done (f (- n 1)))))").unwrap();
    assert!(matches!(eval(&mut interp, def, 0, 3), Status::Done(Ok(_))));
    let rounds = 500;
    let steps = 6 + 23 * rounds + 11;
    interp.start(read_str("(f 500)").unwrap(), 0);
    assert!(matches!(interp.run(steps - 1), Status::Running));
    match interp.run(1) {
        Status::Done(Ok(v)) => assert_eq!(v, read_str(":done").unwrap()),
        other => panic!("{:?}", other),
    }
}

#[test]
fn deep_recursion_uses_the_interpreters_own_stack() {
    let mut interp = booted();
    rep(&mut interp, "(def! sum (fn* (n) (if (= n 0) 0 (+ n (sum (- n 1))))))");
    assert_eq!(rep(&mut interp, "(sum 20000)"), "200010000");
}

#[test]
fn closure_keeps_the_value_of_a_let_bound_name() {
    let mut interp = booted();
    rep(&mut interp, "(def! g (let* (a 7) (fn* () a)))");
    assert_eq!(rep(&mut interp, "(g)"), "7");
    assert_eq!(rep(&mut interp, "(def! adder (fn* (n) (fn* (x) (+ x n))))"), "#<function>");
    assert_eq!(rep(&mut interp, "((adder 5) 10)"), "15");
}

#[test]
fn macro_expansion_does_not_evaluate() {
    let mut interp = booted();
    rep(&mut interp, "(defmacro! m (fn* (x) x))");
    assert_eq!(rep(&mut interp, "(macroexpand (m (throw :boom)))"), "(throw :boom)");
    assert_eq!(rep(&mut interp, "(m (throw :boom))"), "ERROR: :boom");
}

#[test]
fn quasiquote_laws() {
    assert_eq!(one("`()"), "()");
    assert_eq!(one("`(1 2 3)"), "(1 2 3)");
    assert_eq!(one("(let* (a 2) `(1 ~a 3))"), "(1 2 3)");
    assert_eq!(one("(let* (xs (list 2 3)) `(1 ~@xs 4))"), "(1 2 3 4)");
    assert_eq!(one("`[1 ~(+ 1 1)]"), "[1 2]");
    assert_eq!(one("`a"), "a");
    assert_eq!(one("`{:a 1}"), "{:a 1}");
}

#[test]
fn quasiquoteexpand_shows_the_rewrite() {
    assert_eq!(one("(quasiquoteexpand (1 ~a ~@b))"), "(cons 1 (cons a (concat b ())))");
    assert_eq!(one("(quasiquoteexpand [x])"), "(vec (cons (quote x) ()))");
    assert_eq!(one("(quasiquoteexpand (unquote))"), "ERROR: \"missing argument to unquote\"");
}

#[test]
fn atom_swap_and_deref() {
    assert_eq!(one("(let* (a (atom 1)) (swap! a + 2) (deref a))"), "3");
    assert_eq!(one("(let* (a (atom 1)) (do (swap! a + 2) (deref a)))"), "3");
    assert_eq!(one("(let* (a (atom 1)) (swap! a + 2))"), "3");
    assert_eq!(one("(let* (a (atom 5)) (do (reset! a 9) @a))"), "9");
    assert_eq!(one("(atom? (atom 1))"), "true");
    assert_eq!(one("(atom 7)"), "(atom 7)");
    assert_eq!(one("(let* (a (atom 2)) (swap! a (fn* (x y z) (* x (+ y z))) 3 4))"), "14");
}

#[test]
fn try_catches_a_thrown_value() {
    assert_eq!(one("(try* (throw \"x\") (catch* e e))"), "\"x\"");
    assert_eq!(one("(try* (throw {:a 1}) (catch* e (get e :a)))"), "1");
    assert_eq!(one("(try* 5 (catch* e e))"), "5");
    assert_eq!(one("(try* (throw 1))"), "ERROR: 1");
    assert_eq!(one("(try* (try* (throw 1) (catch* a (throw (+ a 1)))) (catch* b (+ b 10)))"), "12");
    assert_eq!(one("(try* abc (catch* e e))"), "\"'abc' not found\"");
}

#[test]
fn special_forms() {
    let mut interp = booted();
    assert_eq!(rep(&mut interp, "(def! x 3)"), "3");
    assert_eq!(rep(&mut interp, "x"), "3");
    assert_eq!(rep(&mut interp, "(do 1 2 x)"), "3");
    assert_eq!(rep(&mut interp, "(if nil 1 2)"), "2");
    assert_eq!(rep(&mut interp, "(if false 1)"), "nil");
    assert_eq!(rep(&mut interp, "(if 0 1 2)"), "1");
    assert_eq!(rep(&mut interp, "(if \"\" 1 2)"), "1");
    assert_eq!(rep(&mut interp, "(quote (a b))"), "(a b)");
    assert_eq!(rep(&mut interp, "'(a b)"), "(a b)");
    assert_eq!(rep(&mut interp, "()"), "()");
    assert_eq!(rep(&mut interp, "[x (+ x 1)]"), "[3 4]");
    assert_eq!(rep(&mut interp, "{:a x \"b\" (+ x 1)}"), "{:a 3 \"b\" 4}");
    assert_eq!(rep(&mut interp, "(let* [a 1 b 2] (+ a b))"), "3");
    assert_eq!(rep(&mut interp, "(not true)"), "false");
    assert_eq!(rep(&mut interp, "(cond false 1 true 2)"), "2");
    assert_eq!(rep(&mut interp, "(cond false 1)"), "nil");
    assert_eq!(rep(&mut interp, "*host-language*"), "\"rust\"");
    assert_eq!(rep(&mut interp, "*ARGV*"), "()");
}

#[test]
fn missing_operands_are_errors() {
    assert_eq!(one("(def! x)"), "ERROR: \"missing argument to def!\"");
    assert_eq!(one("(let* (a))"), "ERROR: \"missing argument to let*\"");
    assert_eq!(one("(let* (a) 1)"), "ERROR: \"missing argument to let*\"");
    assert_eq!(one("(do)"), "ERROR: \"missing argument to do\"");
    assert_eq!(one("(if true)"), "ERROR: \"missing argument to if\"");
    assert_eq!(one("(fn* (a))"), "ERROR: \"missing argument to fn*\"");
    assert_eq!(one("(quote)"), "ERROR: \"missing argument to quote\"");
    assert_eq!(one("(+ 1)"), "ERROR: \"missing argument to +\"");
    assert_eq!(one("(first)"), "ERROR: \"missing argument to first\"");
    assert_eq!(one("((fn* (a b) a) 1)"), "ERROR: \"missing argument to b\"");
    assert_eq!(one("(try* (throw 1) (catch* e))"), "ERROR: \"missing argument to catch*\"");
}

#[test]
fn calling_what_is_no_function_is_an_error() {
    assert_eq!(one("(1 2)"), "ERROR: \"'1' is not a function\"");
    assert_eq!(one("(\"f\")"), "ERROR: \"'\\\"f\\\"' is not a function\"");
    assert_eq!(one("(def! 1 2)"), "ERROR: \"'1' is not a map key (symbol)\"");
    assert_eq!(one("(defmacro! m 1)"), "ERROR: \"'1' is not a function\"");
    assert_eq!(one("nosuch"), "ERROR: \"'nosuch' not found\"");
}

#[test]
fn apply_splices_its_last_argument() {
    assert_eq!(one("(apply + (list 1 2))"), "3");
    assert_eq!(one("(apply + 1 [2])"), "3");
    assert_eq!(one("(apply list 1 2 (list 3 4))"), "(1 2 3 4)");
    assert_eq!(one("(apply list)"), "()");
    assert_eq!(one("(apply list 1 2)"), "(1 2)");
    assert_eq!(one("(apply (fn* (& xs) (count xs)) 1 (list 2 3))"), "3");
    assert_eq!(one("(apply apply list (list 1 (list 2 3)))"), "(1 2 3)");
    assert_eq!(one("(apply)"), "ERROR: \"missing argument to apply\"");
}

#[test]
fn map_calls_a_function_on_each_item() {
    assert_eq!(one("(map (fn* (x) (* x 2)) [1 2 3])"), "(2 4 6)");
    assert_eq!(one("(map first (list [1] [2]))"), "(1 2)");
    assert_eq!(one("(map (fn* (x) x) ())"), "()");
    assert_eq!(one("(map (fn* (x) (throw x)) [7 8])"), "ERROR: 7");
    assert_eq!(one("(map 1 [1])"), "ERROR: \"'1' is not a function\"");
    assert_eq!(one("(map + 1)"), "ERROR: \"'1' is not a list or vec\"");
}

#[test]
fn eval_uses_the_outermost_environment() {
    let mut interp = booted();
    rep(&mut interp, "(def! a 1)");
    assert_eq!(rep(&mut interp, "(let* (a 2) (eval 'a))"), "1");
    assert_eq!(rep(&mut interp, "(eval (read-string \"(+ 2 3)\"))"), "5");
    assert_eq!(rep(&mut interp, "(eval (list + 1 2))"), "3");
}

#[test]
fn printing_goes_through_the_host() {
    let mut interp = booted();
    let mut out = Vec::new();
    assert_eq!(rep_with(&mut interp, "(prn \"a\" 1 :k)", &mut out), "nil");
    assert_eq!(rep_with(&mut interp, "(println \"a\" 1 :k)", &mut out), "nil");
    assert_eq!(rep_with(&mut interp, "(do (println 1) (println 2) 3)", &mut out), "3");
    assert_eq!(out, vec!["\"a\" 1 :k", "a 1 :k", "1", "2"]);
}

#[test]
fn reading_a_line_goes_through_the_host() {
    let mut interp = booted();
    assert_eq!(rep(&mut interp, "(readline \"user> \")"), "\"typed line\"");
    assert_eq!(rep(&mut interp, "(readline \"eof> \")"), "nil");
    assert_eq!(rep(&mut interp, "(readline 1)"), "ERROR: \"'1' is not a string\"");
}

#[test]
fn reading_a_file_goes_through_the_host() {
    let mut interp = booted();
    assert_eq!(
        rep(&mut interp, "(slurp \"inc.mal\")"),
        "\"(def! inc (fn* (x) (+ x 1)))\\n(inc 41)\""
    );
    assert_eq!(
        rep(&mut interp, "(slurp \"nothing\")"),
        "ERROR: \"failed to read file nothing: No such file\""
    );
    assert_eq!(rep(&mut interp, "(load-file \"inc.mal\")"), "nil");
    assert_eq!(rep(&mut interp, "(inc 1)"), "2");
}

#[test]
fn the_clock_goes_through_the_host() {
    assert_eq!(one("(time-ms)"), "1234");
    assert_eq!(one("(- (time-ms) (time-ms))"), "0");
}

#[test]
fn a_reply_of_the_wrong_kind_is_an_error() {
    let mut interp = booted();
    let status = re(&mut interp, "(time-ms)", 0, FUEL).unwrap().unwrap();
    assert!(matches!(status, Status::Waiting(Request::Clock)));
    interp.resume(Reply::Printed);
    match interp.run(FUEL) {
        Status::Done(Err(e)) => {
            assert_eq!(to_text(&e, &interp.heap.atoms, false), "unexpected reply from the host")
        }
        other => panic!("{:?}", other),
    }
}

#[test]
fn fuel_bounds_the_steps() {
    let mut interp = booted();
    rep(&mut interp, "(def! spin (fn* () (spin)))");
    let ast = read_str("(spin)").unwrap();
    let status = eval(&mut interp, ast, 0, 1000);
    assert!(matches!(status, Status::Running));
    assert!(matches!(interp.run(1000), Status::Running));
    assert!(interp.stack.len() <= 3);
}

#[test]
fn blank_lines_and_unreadable_lines() {
    let mut interp = booted();
    assert!(matches!(re(&mut interp, "   ; nothing", 0, FUEL), Ok(None)));
    assert!(matches!(re(&mut interp, "", 0, FUEL), Ok(None)));
    assert_eq!(rep(&mut interp, "(1 2"), "PARSE: unexpected end of input");
    assert_eq!(rep(&mut interp, "\"abc"), "PARSE: unexpected end of input");
}

#[test]
fn macros() {
    let mut interp = booted();
    rep(&mut interp, "(defmacro! unless (fn* (pred a b) `(if ~pred ~b ~a)))");
    assert_eq!(rep(&mut interp, "(unless false 7 8)"), "7");
    assert_eq!(rep(&mut interp, "(macroexpand (unless PRED A B))"), "(if PRED B A)");
    assert_eq!(rep(&mut interp, "(macro? unless)"), "true");
    assert_eq!(rep(&mut interp, "(fn? unless)"), "false");
    assert_eq!(rep(&mut interp, "(fn? (fn* () 1))"), "true");
    assert_eq!(rep(&mut interp, "(fn? +)"), "true");
    assert_eq!(rep(&mut interp, "(macroexpand (cond a b))"), "(if a b (cond))");
    assert_eq!(rep(&mut interp, "((first (list unless)) false 7 8)"),
        "ERROR: \"'#<function>' is not a function\"");
}

#[test]
fn set_argv_binds_the_arguments() {
    let mut interp = booted();
    interp.set_argv(&vec!["a".to_string(), "b c".to_string()]);
    assert_eq!(rep(&mut interp, "*ARGV*"), "(\"a\" \"b c\")");
}

#[test]
fn closures_are_equal_only_to_themselves() {
    let mut interp = booted();
    rep(&mut interp, "(def! f (fn* () 1))");
    assert_eq!(rep(&mut interp, "(= f f)"), "true");
    assert_eq!(rep(&mut interp, "(= f (fn* () 1))"), "false");
    assert_eq!(rep(&mut interp, "(= + +)"), "true");
    assert_eq!(rep(&mut interp, "(= + -)"), "false");
    assert_eq!(rep(&mut interp, "(= eval eval)"), "true");
    assert_eq!(rep(&mut interp, "(= apply apply)"), "true");
    assert_eq!(rep(&mut interp, "(= readline readline)"), "false");
    assert_eq!(rep(&mut interp, "(let* (a (atom 1)) (= a a))"), "true");
    assert_eq!(rep(&mut interp, "(= (atom 1) (atom 1))"), "false");
}
