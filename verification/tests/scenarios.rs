use fexpr_lang::error::Error;
use fexpr_lang::value::Value;
use fexpr_lang::{eval_source, parse, parse_str, print};

fn run(code: &str) -> (Result<Value, Error>, String) {
    let mut out = String::new();
    let res = eval_source(&parse_str(code).unwrap(), &mut out);
    (res, out)
}

fn value_of(code: &str) -> String {
    let (res, _) = run(code);
    let mut text = String::new();
    print(&mut text, &res.unwrap());
    text
}

fn failure_of(code: &str) -> Error {
    match run(code).0 {
        Err(e) => e,
        Ok(_) => panic!("no failure"),
    }
}

#[test]
fn puts_prints_and_gives_the_empty_list() {
    let (res, out) = run("(puts hello)");
    assert!(matches!(res, Ok(Value::List(fexpr_lang::value::List::Empty))));
    assert_eq!(out, "hello\n");
}

#[test]
fn puts_prints_its_arguments_in_a_row() {
    let (_, out) = run("(puts a SPACE b LPAR RPAR) (puts) (puts! (x y) z) (puts (list a (list)))");
    assert_eq!(out, "a b()\n\n(x y)z\n(a ())\n");
}

#[test]
fn output_before_a_failure_is_kept() {
    let (res, out) = run("(puts one) (assert ()) (puts two)");
    assert!(matches!(res, Err(Error::AssertError { .. })));
    assert_eq!(out, "one\n");
}

#[test]
fn assertions_pass_silently() {
    let (res, out) = run("(assert (atom-eq? a a)) (assert (not (atom-eq? a b)))");
    assert!(matches!(res, Ok(Value::List(fexpr_lang::value::List::Empty))));
    assert_eq!(out, "");
}

#[test]
fn upeval_sees_the_outer_binding() {
    let code = "(define! a 1) (begin! (define! a 2) (assert (atom-eq? (upeval! a) 1)))";
    let (res, out) = run(code);
    assert!(res.is_ok());
    assert_eq!(out, "");
    assert_eq!(value_of(&format!("{} a", code)), "1");
}

#[test]
fn fexpr_with_positional_parameters() {
    let text = value_of("(define f! (fexpr! (x y) ((atom-eq? x y)))) (f! 1 1)");
    assert_eq!(text, "true");
    let (res, _) = run("(define f! (fexpr! (x y) ((atom-eq? x y)))) (f! 1 1)");
    assert!(matches!(res, Ok(Value::Atom(a)) if a.name == "true"));
}

#[test]
fn fexpr_with_a_rest_parameter() {
    let code = "(define g! (fexpr! args ((eval (cons (quote! atom-concat) args))))) (g! 1 2 3)";
    assert!(matches!(run(code).0, Ok(Value::Atom(a)) if a.name == "123"));
}

#[test]
fn fexpr_arity_is_checked() {
    match failure_of("(define f! (fexpr! () ()))\n(f! 1)") {
        Error::BadArgsNum { expected, found, source_info } => {
            assert_eq!((expected, found), (0, 1));
            assert_eq!((source_info.lineno, source_info.charno), (2, 1));
        }
        other => panic!("wrong failure: {:?}", other),
    }
    match failure_of("(define f (fexpr! (a b c) ())) (f 1)") {
        Error::BadArgsNum { expected, found, .. } => assert_eq!((expected, found), (3, 1)),
        other => panic!("wrong failure: {:?}", other),
    }
}

#[test]
fn a_list_at_the_head_of_a_call_is_not_evaluated() {
    match failure_of("((fexpr! () ()) 1)") {
        Error::CantCall { val, .. } => assert!(matches!(val, Value::SourceList(_))),
        other => panic!("wrong failure: {:?}", other),
    }
}

#[test]
fn upeval_at_top_level_fails() {
    assert!(matches!(failure_of("(upeval! x)"), Error::NoUpCtx { .. }));
    assert!(matches!(failure_of("(upeval x)"), Error::NoUpCtx { .. }));
    assert!(matches!(failure_of("(begin! (upeval! (upeval! x)))"), Error::NoUpCtx { .. }));
}

#[test]
fn nested_upevals_reach_two_frames_up() {
    let code = "(define! a 0) (begin! (define! a 1) (begin! (define! a 2) (upeval! (upeval! a))))";
    assert_eq!(value_of(code), "0");
    let code = "(define! a 0) (begin! (define! a 1) (begin! (define! a 2) (upeval! a)))";
    assert_eq!(value_of(code), "1");
}

#[test]
fn definitions_inside_upeval_are_dropped() {
    assert_eq!(value_of("(begin! (upeval! (define! z 1)) z)"), "z");
    assert_eq!(value_of("(begin! (upeval! (define! z 1))) z"), "z");
}

#[test]
fn empty_program_gives_the_empty_list() {
    assert_eq!(value_of(""), "()");
    assert_eq!(value_of("()"), "()");
}

#[test]
fn free_symbols_evaluate_to_themselves() {
    assert!(matches!(run("never-defined").0, Ok(Value::Atom(a)) if a.name == "never-defined"));
}

#[test]
fn redefinition_fails_and_shadowing_succeeds() {
    match failure_of("(define! a 1)\n (define! a 2)") {
        Error::Redefinition { key, source_info, .. } => {
            assert_eq!(key.name, "a");
            assert_eq!((source_info.lineno, source_info.charno), (2, 2));
        }
        other => panic!("wrong failure: {:?}", other),
    }
    assert_eq!(value_of("(define! a 1) (begin! (define! a 2) a)"), "2");
    assert_eq!(value_of("(define! a 1) (eval! (define! a 2)) a"), "1");
    assert_eq!(value_of("(define! a 1) (define f (fexpr! () ((define! a 2) a))) (f)"), "2");
    assert_eq!(value_of("(define! car mine) car"), "mine");
    assert_eq!(value_of("(define f (fexpr! (p) ((define! p q) p))) (f 1)"), "q");
}

#[test]
fn not_is_an_involution_on_truth() {
    assert_eq!(value_of("(not ())"), "true");
    assert_eq!(value_of("(not true)"), "()");
    assert_eq!(value_of("(not (not ()))"), "()");
    assert_eq!(value_of("(not (not anything))"), "true");
    assert_eq!(value_of("(not (quote! ()))"), "()");
    assert_eq!(value_of("(not (not (quote! ())))"), "true");
    assert_eq!(value_of("(not (list))"), "true");
    assert_eq!(value_of("(not (cdr! (a)))"), "true");
}

#[test]
fn cond_takes_the_first_true_test() {
    assert_eq!(value_of("(cond)"), "()");
    assert_eq!(value_of("(cond () a)"), "()");
    assert_eq!(value_of("(cond () a else b)"), "b");
    assert_eq!(value_of("(cond x a (undefined-call) b)"), "a");
    let (res, out) = run("(cond (puts t1) a (not (puts t2)) b (assert ()) c)");
    assert_eq!(out, "t1\nt2\n");
    assert!(matches!(res, Ok(Value::Atom(a)) if a.name == "b"));
    match failure_of("(cond () a b)") {
        Error::BadFuncArgs { msg, .. } => assert_eq!(msg, "cond: must have an even number of arguments"),
        other => panic!("wrong failure: {:?}", other),
    }
}

#[test]
fn cond_checks_its_arity_before_it_evaluates() {
    for code in ["(cond t x y)", "(cond (puts seen) a b)", "(cond (assert ()))", "(cond () a () b (puts seen))"] {
        let (res, out) = run(code);
        match res {
            Err(Error::BadFuncArgs { msg, .. }) => {
                assert_eq!(msg, "cond: must have an even number of arguments")
            }
            other => panic!("wrong result: {:?}", other),
        }
        assert_eq!(out, "");
    }
    let (res, out) = run("(cond (puts seen) a (puts also) b)");
    assert!(matches!(res, Ok(Value::List(fexpr_lang::value::List::Empty))));
    assert_eq!(out, "seen\nalso\n");
}

#[test]
fn assert_takes_an_empty_source_list_as_true() {
    let (res, _) = run("(assert (quote! ()) (quote! (a)))");
    assert!(matches!(res, Ok(Value::List(fexpr_lang::value::List::Empty))));
    assert!(matches!(failure_of("(assert (list))"), Error::AssertError { .. }));
    assert!(matches!(failure_of("(assert ())"), Error::AssertError { .. }));
}

#[test]
fn atom_eq_wants_atoms_throughout() {
    match failure_of("(atom-eq?! a b ())") {
        Error::BadFuncArgs { msg, .. } => assert_eq!(msg, "atom-eq?: argument #3 `()' is not an atom"),
        other => panic!("wrong failure: {:?}", other),
    }
    assert_eq!(value_of("(atom-eq?! a b c)"), "()");
    assert_eq!(value_of("(atom-eq?! a a a)"), "true");
}

#[test]
fn a_definition_inside_begin_stays_inside() {
    let (res, out) = run("(define! a 1) (begin! (define! a 2))");
    assert!(matches!(res, Ok(Value::List(fexpr_lang::value::List::Empty))));
    assert_eq!(out, "");
    assert_eq!(value_of("(define! a 1) (begin! (define! a 2)) a"), "1");
    assert_eq!(value_of("(begin! (define! fresh 2)) fresh"), "fresh");
    assert!(matches!(
        failure_of("(define! a 1) (begin! (define! a 2)) (define! a 3)"),
        Error::Redefinition { .. }
    ));
}

#[test]
fn begin_gives_its_last_value() {
    assert_eq!(value_of("(begin!)"), "()");
    assert_eq!(value_of("(begin! a b c)"), "c");
}

#[test]
fn evaluated_and_unevaluated_variants() {
    assert_eq!(value_of("(define! a (b)) (car! (x y))"), "x");
    assert_eq!(value_of("(car (quote! (x y)))"), "x");
    assert_eq!(value_of("(define! l (p q)) (cdr l)"), "(q)");
    assert_eq!(value_of("(atom-concat! a b)"), "ab");
    assert_eq!(value_of("(define! a x) (atom-concat a b)"), "xb");
    assert_eq!(value_of("(atom? a)"), "true");
    assert_eq!(value_of("(atom?! (a))"), "()");
    assert_eq!(value_of("(list? (list))"), "true");
    assert_eq!(value_of("(list?! (a) ())"), "true");
    assert_eq!(value_of("(fexpr? (fexpr! a ()))"), "true");
    assert_eq!(value_of("(fexpr?! (fexpr! a ()))"), "()");
    assert_eq!(value_of("(list a (list b) (quote! (c)))"), "(a (b) (c))");
    assert_eq!(value_of("(fexpr (quote! (a b)) (quote! (a)))"), "(fexpr! (a b) (a))");
    assert_eq!(value_of("(cons! a (b))"), "(a b)");
    assert_eq!(value_of("(eval (list (quote! car) (quote! (quote! (p q)))))"), "p");
}

#[test]
fn what_cannot_be_evaluated_or_called() {
    match failure_of("(eval car)") {
        Error::CantEval { val, .. } => assert!(matches!(val, Value::Function(_))),
        other => panic!("wrong failure: {:?}", other),
    }
    assert!(matches!(failure_of("(eval (fexpr! a ()))"), Error::CantEval { .. }));
    match failure_of("\n  (nothing here)") {
        Error::CantCall { val, source_info } => {
            assert!(matches!(val, Value::Atom(a) if a.name == "nothing"));
            assert_eq!((source_info.lineno, source_info.charno), (2, 3));
        }
        other => panic!("wrong failure: {:?}", other),
    }
    assert!(matches!(failure_of("((a b) c)"), Error::CantCall { .. }));
}

#[test]
fn assert_names_the_argument() {
    match failure_of("(assert a b (cdr! (x)) c)") {
        Error::AssertError { msg, source_info } => {
            assert_eq!(msg, "argument #3 `(cdr! (x))' eval to an empty list");
            assert_eq!((source_info.lineno, source_info.charno), (1, 1));
        }
        other => panic!("wrong failure: {:?}", other),
    }
}

#[test]
fn one_argument_operators_check_their_count() {
    let msg_of = |code: &str| match failure_of(code) {
        Error::BadFuncArgs { msg, .. } => msg,
        other => panic!("wrong failure: {:?}", other),
    };
    assert_eq!(msg_of("(not)"), "not: must have an argument");
    assert_eq!(msg_of("(not a b)"), "not: must have only one argument");
    assert_eq!(msg_of("(eval)"), "eval: must have an argument");
    assert_eq!(msg_of("(eval! a b)"), "eval: must have only one argument");
    assert_eq!(msg_of("(upeval!)"), "upeval: must have an argument");
    assert_eq!(msg_of("(begin! (upeval a b))"), "upeval: must have only one argument");
    assert_eq!(msg_of("(define!)"), "define: must have two arguments");
    assert_eq!(msg_of("(define! (a) b)"), "define: the first argument `(a)' is not an atom");
    assert_eq!(msg_of("(define! a)"), "define: must have a second argument");
    assert_eq!(msg_of("(define! a b c)"), "define: must have only two arguments");
}

#[test]
fn errors_have_messages() {
    assert_eq!(failure_of("(upeval! x)").to_string(), "Can't go upwards\n\tAt str:`(upeval! x...':1:1");
    assert_eq!(
        failure_of("(car a)").to_string(),
        "Bad arguments: car: argument `a' is not a list\n\tAt str:`(car a)...':1:1"
    );
    assert_eq!(
        failure_of("(define! a 1) (define! a (2 3))").to_string(),
        "Can't redefine a from 1 to (2 3)\n\tAt str:`(define! a...':1:15"
    );
    assert_eq!(
        failure_of("(define f (fexpr! (a) ())) (f)").to_string(),
        "Bad number of arguments, expected 1, found 0\n\tAt str:`(define f ...':1:28"
    );
    assert_eq!(failure_of("(eval car)").to_string(), "Can't eval value: car\n\tAt str:`(eval car)...':1:1");
    assert_eq!(failure_of("(x)").to_string(), "Can't call value: x\n\tAt str:`(x)...':1:1");
    assert_eq!(
        failure_of("(assert ())").to_string(),
        "Assert failed with: argument #1 `()' eval to an empty list\n\tAt str:`(assert ()...':1:1"
    );
    assert_eq!(
        parse("f.l", b"(a").unwrap_err().to_string(),
        "Syntax error: Expecting ')' found EOF\n\tAt f.l:1:2"
    );
    assert_eq!(parse("f.l", &[0xe2, 0x28]).unwrap_err().to_string(), "Invalid bytes as UTF-8: [226, 40, 0, 0]");
    assert_eq!(
        failure_of("(define l! (fexpr! () ((l!)))) (l!)").to_string(),
        "Calls are nested too deeply\n\tAt str:`(define l!...':1:24"
    );
    assert_eq!(Error::Io("broken pipe".to_string()).to_string(), "Io Error: broken pipe");
    let info = fexpr_lang::source::SourceInfo { name: "n".to_string(), lineno: 12, charno: 0 };
    assert_eq!(info.to_string(), "n:12:0");
}
