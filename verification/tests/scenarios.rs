use mal::eval::{re, Status};
use mal::machine::{Interp, Reply, Request};
use mal::printer::to_text;

const FUEL: u64 = 5_000_000;

fn rep(interp: &mut Interp, src: &str) -> String {
    let mut status = match re(interp, src, 0, FUEL) {
        Ok(Some(status)) => status,
        Ok(None) => return String::new(),
        Err(e) => return format!("PARSE: {}", e.message()),
    };
    loop {
        match status {
            Status::Done(Ok(v)) => return to_text(&v, &interp.heap.atoms, true),
            Status::Done(Err(e)) => {
                return format!("ERROR: {}", to_text(&e, &interp.heap.atoms, true))
            }
            Status::Waiting(Request::Print(_)) => interp.resume(Reply::Printed),
            Status::Waiting(Request::ReadLine(_)) => interp.resume(Reply::Line(None)),
            Status::Waiting(Request::ReadFile(_)) => {
                interp.resume(Reply::File(Ok("; a comment\n(def! loaded 12) ; another\n".into())))
            }
            Status::Waiting(Request::Clock) => interp.resume(Reply::Millis(0)),
            Status::Running => {}
        }
        status = interp.run(FUEL);
    }
}

fn session(lines: &[(&str, &str)]) {
    let mut interp = Interp::new();
    assert!(interp.boot(FUEL));
    for (src, expected) in lines {
        assert_eq!(&rep(&mut interp, src), expected, "for {}", src);
    }
}

#[test]
fn environments_nest() {
    session(&[
        ("(def! x 1)", "1"),
        ("(let* (x 2) x)", "2"),
        ("x", "1"),
        ("(let* (y (+ x 1) z (* y 2)) (list x y z))", "(1 2 4)"),
        ("(do (def! a 6) 7 (+ a 8))", "14"),
        ("(let* (p (+ 2 3) q (+ 2 p)) (+ p q))", "12"),
        ("(def! y (let* (z 7) z))", "7"),
        ("y", "7"),
        ("(let* (x 2) (do (def! inner 5) inner))", "5"),
        ("inner", "ERROR: \"'inner' not found\""),
    ]);
}

#[test]
fn functions_and_closures() {
    session(&[
        ("((fn* (a b) (+ b a)) 3 4)", "7"),
        ("((fn* [a] a) 5)", "5"),
        ("((fn* () 4))", "4"),
        ("((fn* (f x) (f x)) (fn* (a) (+ 1 a)) 7)", "8"),
        ("(((fn* (a) (fn* (b) (+ a b))) 5) 7)", "12"),
        ("(def! gen-plus5 (fn* () (fn* (b) (+ 5 b))))", "#<function>"),
        ("(def! plus5 (gen-plus5))", "#<function>"),
        ("(plus5 7)", "12"),
        ("(def! sumdown (fn* (n) (if (> n 0) (+ n (sumdown (- n 1))) 0)))", "#<function>"),
        ("(sumdown 6)", "21"),
        ("(def! sum2 (fn* (n acc) (if (= n 0) acc (sum2 (- n 1) (+ n acc)))))", "#<function>"),
        ("(sum2 10000 0)", "50005000"),
        ("(def! foo (fn* (n) (if (= n 0) 0 (bar (- n 1)))))", "#<function>"),
        ("(def! bar (fn* (n) (if (= n 0) 0 (foo (- n 1)))))", "#<function>"),
        ("(foo 10000)", "0"),
        ("((fn* (a & more) (count more)) 1)", "0"),
        ("((fn* (& more) (list? more)))", "true"),
    ]);
}

#[test]
fn conditionals_and_truth() {
    session(&[
        ("(if true 7 8)", "7"),
        ("(if false 7 8)", "8"),
        ("(if nil 7 8)", "8"),
        ("(if 0 7 8)", "7"),
        ("(if (list) 7 8)", "7"),
        ("(if [] 7 8)", "7"),
        ("(if \"\" 7 8)", "7"),
        ("(if true (+ 1 7) (+ 1 8))", "8"),
        ("(if false (+ 1 7))", "nil"),
        ("(not false)", "true"),
        ("(not nil)", "true"),
        ("(not 0)", "false"),
        ("(not \"a\")", "false"),
        ("(cond)", "nil"),
        ("(cond true 7)", "7"),
        ("(cond false 7 false 8 \"else\" 9)", "9"),
        ("(cond false 7 (= 2 2) 8 \"else\" 9)", "8"),
        ("(cond true)", "ERROR: \"odd number of forms to cond\""),
    ]);
}

#[test]
fn comparison_and_equality() {
    session(&[
        ("(= 2 1)", "false"),
        ("(= 1 1)", "true"),
        ("(= 1 (+ 1 1))", "false"),
        ("(= nil nil)", "true"),
        ("(= nil false)", "false"),
        ("(= \"\" \"\")", "true"),
        ("(= \"abc\" \"abc\")", "true"),
        ("(= \"abc\" (quote abc))", "false"),
        ("(= :abc :abc)", "true"),
        ("(= :abc :def)", "false"),
        ("(= :abc \":abc\")", "false"),
        ("(= (list) (list))", "true"),
        ("(= (list) [])", "true"),
        ("(= (list 1 2) (list 1 2))", "true"),
        ("(= (list 1) (list))", "false"),
        ("(= [] 0)", "false"),
        ("(= {:a 1 :b 2} {:b 2 :a 1})", "true"),
        ("(= {:a [1]} {:a (list 1)})", "true"),
        ("(= {:a 1} {:a 2})", "false"),
        ("(= {} [])", "false"),
        ("(> 2 1)", "true"),
        ("(> 1 1)", "false"),
        ("(>= 1 1)", "true"),
        ("(< 1 2)", "true"),
        ("(<= 2 1)", "false"),
        ("(< 1 \"a\")", "ERROR: \"'\\\"a\\\"' is not a number\""),
    ]);
}

#[test]
fn strings_and_printing() {
    session(&[
        ("\"\"", "\"\""),
        ("\"abc\"", "\"abc\""),
        ("\"abc  def\"", "\"abc  def\""),
        ("\"\\\"\"", "\"\\\"\""),
        ("\"abc\\ndef\"", "\"abc\\ndef\""),
        ("(pr-str)", "\"\""),
        ("(pr-str \"\")", "\"\\\"\\\"\""),
        ("(pr-str \"abc\")", "\"\\\"abc\\\"\""),
        ("(pr-str \"abc  def\" \"ghi jkl\")", "\"\\\"abc  def\\\" \\\"ghi jkl\\\"\""),
        ("(pr-str (list 1 2 \"abc\" \"\\\"\") \"def\")", "\"(1 2 \\\"abc\\\" \\\"\\\\\\\"\\\") \\\"def\\\"\""),
        ("(str)", "\"\""),
        ("(str \"\")", "\"\""),
        ("(str \"abc\" \"def\")", "\"abcdef\""),
        ("(str 1 \"abc\" 3)", "\"1abc3\""),
        ("(str \"abc  def\" \"ghi jkl\")", "\"abc  defghi jkl\""),
        ("(str (list 1 2 \"abc\" \"\\\"\") \"def\")", "\"(1 2 abc \\\")def\""),
        ("(str [1 :a {:b \"c\"}] nil true)", "\"[1 :a {:b c}]niltrue\""),
        ("(str (atom 3))", "\"(atom 3)\""),
        ("(symbol \"abc\")", "abc"),
        ("(keyword \"abc\")", ":abc"),
        ("(keyword :abc)", ":abc"),
        ("(= (keyword \"abc\") :abc)", "true"),
        ("(symbol? 'abc)", "true"),
        ("(symbol? \"abc\")", "false"),
        ("(keyword? :abc)", "true"),
        ("(keyword? \"abc\")", "false"),
        ("(string? \"\")", "true"),
        ("(string? :abc)", "false"),
        ("(read-string \"(1 2 (3 4) nil)\")", "(1 2 (3 4) nil)"),
        ("(read-string \"7 ;; comment\")", "7"),
        ("(read-string \";; comment\")", "nil"),
        ("(read-string \"(1\")", "ERROR: \"parsing failed: unexpected end of input\""),
    ]);
}

#[test]
fn sequences() {
    session(&[
        ("(list)", "()"),
        ("(list? (list))", "true"),
        ("(list? [])", "false"),
        ("(empty? (list))", "true"),
        ("(empty? (list 1))", "false"),
        ("(count (list 1 2 3))", "3"),
        ("(count nil)", "0"),
        ("(count [])", "0"),
        ("(cons 1 (list))", "(1)"),
        ("(cons [1] [2 3])", "([1] 2 3)"),
        ("(concat)", "()"),
        ("(concat (list 1 2) (list 3 4) [5 6])", "(1 2 3 4 5 6)"),
        ("(concat [1 2])", "(1 2)"),
        ("(vec (list 1 2))", "[1 2]"),
        ("(vec [])", "[]"),
        ("(nth (list 1 2) 1)", "2"),
        ("(nth [1 2 nil] 2)", "nil"),
        ("(nth (list 1 2) 2)", "ERROR: \"index out of bounds: length is 2, got 2\""),
        ("(nth (list 1 2) (- 0 1))", "ERROR: \"index out of bounds: length is 2, got -1\""),
        ("(first (list))", "nil"),
        ("(first [10 11])", "10"),
        ("(rest (list 6))", "()"),
        ("(rest [10 11 12])", "(11 12)"),
        ("(rest nil)", "()"),
        ("(seq \"abc\")", "(\"a\" \"b\" \"c\")"),
        ("(seq [2 3 4])", "(2 3 4)"),
        ("(seq nil)", "nil"),
        ("(conj (list) 1)", "(1)"),
        ("(conj (list 2 3) 4 5 6)", "(6 5 4 2 3)"),
        ("(conj [1] 2 3)", "[1 2 3]"),
        ("(conj [1] [2 3])", "[1 [2 3]]"),
        ("(vector 3 4 5)", "[3 4 5]"),
        ("(vector? [1])", "true"),
        ("(sequential? (list 1))", "true"),
        ("(sequential? [1])", "true"),
        ("(sequential? {})", "false"),
        ("(apply + (list 2 3))", "5"),
        ("(apply (fn* (a b) (+ a b)) 4 [5])", "9"),
        ("(map (fn* (a) (apply + a)) (list [1 2] [3 4]))", "(3 7)"),
        ("(map (fn* (& args) (list? args)) [1 2])", "(true true)"),
        ("(apply map (list (fn* (x) (* 2 x)) [1 2 3]))", "(2 4 6)"),
    ]);
}

#[test]
fn maps() {
    session(&[
        ("{\"abc\" 1}", "{\"abc\" 1}"),
        ("{:a (+ 7 8)}", "{:a 15}"),
        ("(hash-map \"a\" 1)", "{\"a\" 1}"),
        ("(map? {})", "true"),
        ("(map? [])", "false"),
        ("(assoc {} \"a\" 1)", "{\"a\" 1}"),
        ("(get (assoc (assoc {\"a\" 1} \"b\" 2) \"c\" 3) \"a\")", "1"),
        ("(def! hm1 (hash-map))", "{}"),
        ("(get hm1 \"a\")", "nil"),
        ("(get nil \"a\")", "nil"),
        ("(contains? hm1 \"a\")", "false"),
        ("(def! hm2 (assoc hm1 \"a\" 1))", "{\"a\" 1}"),
        ("(get hm1 \"a\")", "nil"),
        ("(get hm2 \"a\")", "1"),
        ("(contains? hm2 \"a\")", "true"),
        ("(keys hm1)", "()"),
        ("(keys hm2)", "(\"a\")"),
        ("(vals hm2)", "(1)"),
        ("(count (keys (assoc hm2 \"b\" 2 \"c\" 3)))", "3"),
        ("(def! hm3 (assoc hm2 \"b\" 2))", "{\"a\" 1 \"b\" 2}"),
        ("(dissoc hm3 \"a\")", "{\"b\" 2}"),
        ("(dissoc hm3 \"a\" \"b\")", "{}"),
        ("(dissoc hm3 \"a\" \"b\" \"c\")", "{}"),
        ("(count (keys hm3))", "2"),
        ("(get {:bcd 234} :bcd)", "234"),
        ("(keyword? (nth (keys {:abc 123 :def 456}) 0))", "true"),
        ("(assoc {:a 1} :a 2)", "{:a 2}"),
        ("(= {} (hash-map))", "true"),
        ("(hash-map :a)", "ERROR: \"expected an even number of arguments, got 1\""),
        ("(hash-map 1 2)", "ERROR: \"'1' is not a hash map key (keyword or string)\""),
    ]);
}

#[test]
fn atoms() {
    session(&[
        ("(def! inc3 (fn* (a) (+ 3 a)))", "#<function>"),
        ("(def! a (atom 2))", "(atom 2)"),
        ("(atom? a)", "true"),
        ("(atom? 1)", "false"),
        ("(deref a)", "2"),
        ("@a", "2"),
        ("(reset! a 3)", "3"),
        ("(swap! a inc3)", "6"),
        ("(swap! a (fn* (a) a))", "6"),
        ("(swap! a (fn* (a) (* 2 a)))", "12"),
        ("(swap! a (fn* (a b) (* a b)) 10)", "120"),
        ("(swap! a + 3)", "123"),
        ("(+ a 1)", "124"),
        ("(def! inc-it (fn* (a) (+ 1 a)))", "#<function>"),
        ("(def! atm (atom 7))", "(atom 7)"),
        ("(def! f (fn* () (swap! atm inc-it)))", "#<function>"),
        ("(f)", "8"),
        ("(f)", "9"),
        ("(def! g (let* (atm (atom 0)) (fn* () (deref atm))))", "#<function>"),
        ("(def! atm (atom 1))", "(atom 1)"),
        ("(g)", "0"),
        ("(deref 1)", "ERROR: \"'1' is not a atom\""),
        ("(swap! 1 inc3)", "ERROR: \"'1' is not a atom\""),
        ("(do (reset! a a) (+ a 1))", "ERROR: \"atom refers to itself\""),
    ]);
}

#[test]
fn quoting_and_macros() {
    session(&[
        ("(quote 7)", "7"),
        ("(quote (1 2 3))", "(1 2 3)"),
        ("(quasiquote 7)", "7"),
        ("(quasiquote a)", "a"),
        ("(quasiquote {\"a\" b})", "{\"a\" b}"),
        ("(quasiquote ())", "()"),
        ("(quasiquote (1 2 3))", "(1 2 3)"),
        ("(quasiquote (a))", "(a)"),
        ("(quasiquote (1 2 (3 4)))", "(1 2 (3 4))"),
        ("(quasiquote (nil))", "(nil)"),
        ("(quasiquote (1 ()))", "(1 ())"),
        ("(quasiquote (unquote 7))", "7"),
        ("(def! a 8)", "8"),
        ("(quasiquote (unquote a))", "8"),
        ("(quasiquote (1 a 3))", "(1 a 3)"),
        ("(quasiquote (1 (unquote a) 3))", "(1 8 3)"),
        ("(def! b (quote (1 \"b\" \"d\")))", "(1 \"b\" \"d\")"),
        ("(quasiquote (1 (unquote b) 3))", "(1 (1 \"b\" \"d\") 3)"),
        ("(def! c (quote (1 \"b\" \"d\")))", "(1 \"b\" \"d\")"),
        ("(quasiquote (1 (splice-unquote c) 3))", "(1 1 \"b\" \"d\" 3)"),
        ("(quasiquote ((splice-unquote c) (splice-unquote c)))", "(1 \"b\" \"d\" 1 \"b\" \"d\")"),
        ("`[1 ~a ~@c]", "[1 8 1 \"b\" \"d\"]"),
        ("`[]", "[]"),
        ("`[unquote 0]", "[unquote 0]"),
        ("`(0 unquote)", "(0 unquote)"),
        ("(defmacro! one (fn* () 1))", "#<function>"),
        ("(one)", "1"),
        ("(defmacro! unless (fn* (pred a b) `(if ~pred ~b ~a)))", "#<function>"),
        ("(unless false 7 8)", "7"),
        ("(unless true 7 8)", "8"),
        ("(defmacro! identity (fn* (x) x))", "#<function>"),
        ("(let* (a 123) (macroexpand (identity a)))", "a"),
        ("(let* (a 123) (identity a))", "123"),
        ("(macroexpand (one))", "1"),
        ("(macroexpand (unless PRED A B))", "(if PRED B A)"),
        ("(macroexpand 5)", "5"),
        ("(def! f (fn* (x) (number? x)))", "#<function>"),
        ("(defmacro! m f)", "#<function>"),
        ("(list (f (+ 1 1)) (m (+ 1 1)))", "(true false)"),
        ("(macro? f)", "false"),
        ("(macro? m)", "true"),
    ]);
}

#[test]
fn exceptions() {
    session(&[
        ("(try* 123 (catch* e 456))", "123"),
        ("(try* abc (catch* exc (str \"exc is: \" exc)))", "\"exc is: 'abc' not found\""),
        ("(try* (abc 1 2) (catch* exc (str exc)))", "\"'abc' not found\""),
        ("(try* (nth () 1) (catch* exc (str exc)))", "\"index out of bounds: length is 0, got 1\""),
        ("(try* (throw \"my exception\") (catch* exc (do (str \"exc:\" exc) 7)))", "7"),
        ("(try* (do (try* \"t1\" (catch* e \"c1\")) (throw \"e1\")) (catch* e \"c2\"))", "\"c2\""),
        ("(try* (try* (throw \"e1\") (catch* e (throw \"e2\"))) (catch* e \"c2\"))", "\"c2\""),
        ("(try* (map throw (list \"my err\")) (catch* exc exc))", "\"my err\""),
        ("(throw \"err1\")", "ERROR: \"err1\""),
        ("(throw {:msg \"err2\"})", "ERROR: {:msg \"err2\"}"),
        ("(try* (throw (list 1 2 3)) (catch* exc exc))", "(1 2 3)"),
        ("(def! safe (fn* (f) (try* (f) (catch* e (list :caught e)))))", "#<function>"),
        ("(safe (fn* () (/ 1 0)))", "(:caught \"division by zero\")"),
        ("(safe (fn* () (+ 1 1)))", "2"),
        ("(try* (swap! (atom 1) (fn* (x) (throw x))) (catch* e (+ e 1)))", "2"),
        ("(try* (throw 1) 5)", "ERROR: \"'5' is not a list\""),
    ]);
}

#[test]
fn metadata() {
    session(&[
        ("(meta (fn* (a) a))", "nil"),
        ("(meta (with-meta (fn* (a) a) {\"b\" 1}))", "{\"b\" 1}"),
        ("(meta (with-meta (fn* (a) a) \"abc\"))", "\"abc\""),
        ("(def! l-wm (with-meta (fn* (a) a) {\"b\" 2}))", "#<function>"),
        ("(meta l-wm)", "{\"b\" 2}"),
        ("(l-wm 9)", "9"),
        ("(def! f-wm (with-meta (fn* [a] (+ 1 a)) {\"abc\" 1}))", "#<function>"),
        ("(meta f-wm)", "{\"abc\" 1}"),
        ("(meta (with-meta f-wm {\"new_meta\" 123}))", "{\"new_meta\" 123}"),
        ("(meta f-wm)", "{\"abc\" 1}"),
        ("(meta +)", "nil"),
        ("(meta (with-meta + 5))", "5"),
        ("((with-meta + 5) 1 2)", "3"),
        ("(meta [1 2 3])", "nil"),
        ("(with-meta [1 2 3] {\"a\" 1})", "[1 2 3]"),
        ("(meta (with-meta [1 2 3] {\"a\" 1}))", "{\"a\" 1}"),
        ("(meta (with-meta (list 1 2 3) {\"a\" 1}))", "{\"a\" 1}"),
        ("(meta (with-meta {\"abc\" 123} {\"a\" 1}))", "{\"a\" 1}"),
        ("(vector? (with-meta [1 2 3] {\"a\" 1}))", "true"),
        ("(meta ^{:k 1} [1])", "{:k 1}"),
        ("(meta 5)", "ERROR: \"'5' is not a value with metadata (list, vec or function)\""),
    ]);
}

#[test]
fn loading_a_file() {
    session(&[
        ("(load-file \"any.mal\")", "nil"),
        ("loaded", "12"),
    ]);
}

#[test]
fn arithmetic_in_programs() {
    session(&[
        ("(+ 1 2)", "3"),
        ("(+ 5 (* 2 3))", "11"),
        ("(- (+ 5 (* 2 3)) 3)", "8"),
        ("(/ (- (+ 5 (* 2 3)) 3) 4)", "2"),
        ("(/ (- (+ 515 (* 87 311)) 302) 27)", "1010"),
        ("(* -3 6)", "ERROR: \"'-3' not found\""),
        ("(- 0 3)", "-3"),
        ("(* (- 0 3) 6)", "-18"),
        ("(/ (- 0 7) 2)", "-3"),
        ("(/ 1 0)", "ERROR: \"division by zero\""),
        ("(+ 2147483647 1)", "ERROR: \"integer overflow\""),
        ("(+ 1 nil)", "ERROR: \"'nil' is not a number\""),
        ("(+ (atom 1) (atom 2))", "3"),
    ]);
}
