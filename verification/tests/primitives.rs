use fexpr_lang::env::Context;
use fexpr_lang::error::Error;
use fexpr_lang::list::{car, cdr, cons, list_len, ListIter, ListRef};
use fexpr_lang::primitives::{
    func_atom_concat, func_atom_eq, func_car, func_cdr, func_cons, func_fexpr, func_is_atom,
    func_is_fexpr, func_is_list, func_list, func_quote, to_list,
};
use fexpr_lang::source::SourceInfo;
use fexpr_lang::value::{List, Value};
use fexpr_lang::{parse_str, print};

fn at() -> SourceInfo {
    SourceInfo { name: "prim".to_string(), lineno: 1, charno: 2 }
}

fn args_of(code: &str) -> List {
    let program = parse_str(code).unwrap();
    assert_eq!(program.len(), 1);
    match Value::from_source(&program[0]).as_list() {
        Some(l) => to_list(l),
        None => panic!("not a list"),
    }
}

fn shown(r: Result<Value, Error>) -> String {
    let mut out = String::new();
    print(&mut out, &r.unwrap());
    out
}

fn complaint(r: Result<Value, Error>) -> String {
    match r {
        Err(Error::BadFuncArgs { source_info, msg }) => {
            assert_eq!(source_info.name, "prim");
            assert_eq!((source_info.lineno, source_info.charno), (1, 2));
            msg
        }
        other => panic!("no complaint: {:?}", other),
    }
}

#[test]
fn car_cdr_cons_laws() {
    let ctx = Context::new_root();
    for (x, l) in [("x", "()"), ("x", "(a b)"), ("(p q)", "((a) b)"), ("()", "(())")] {
        let pair = shown(func_cons(&args_of(&format!("({} {})", x, l)), &ctx, &at()));
        assert_eq!(shown(func_car(&args_of(&format!("({})", pair)), &ctx, &at())), x);
        assert_eq!(shown(func_cdr(&args_of(&format!("({})", pair)), &ctx, &at())), l);
    }
    assert_eq!(shown(func_car(&args_of("(())"), &ctx, &at())), "()");
    assert_eq!(shown(func_cdr(&args_of("(())"), &ctx, &at())), "()");
    assert_eq!(shown(func_cdr(&args_of("((a))"), &ctx, &at())), "()");
    assert_eq!(shown(func_cons(&args_of("(a (b c))"), &ctx, &at())), "(a b c)");
}

#[test]
fn car_cdr_cons_check_their_arguments() {
    let ctx = Context::new_root();
    assert_eq!(complaint(func_car(&args_of("()"), &ctx, &at())), "car: must have an argument");
    assert_eq!(complaint(func_car(&args_of("(a)"), &ctx, &at())), "car: argument `a' is not a list");
    assert_eq!(complaint(func_car(&args_of("((a) (b))"), &ctx, &at())), "car: must have only one argument");
    assert_eq!(complaint(func_cdr(&args_of("()"), &ctx, &at())), "cdr: must have an argument");
    assert_eq!(complaint(func_cdr(&args_of("(a)"), &ctx, &at())), "cdr: argument `a' is not a list");
    assert_eq!(complaint(func_cdr(&args_of("(() ())"), &ctx, &at())), "cdr: must have only one argument");
    assert_eq!(complaint(func_cons(&args_of("()"), &ctx, &at())), "cons: must have two arguments");
    assert_eq!(complaint(func_cons(&args_of("(a)"), &ctx, &at())), "cons: must have a second argument");
    assert_eq!(complaint(func_cons(&args_of("(a b)"), &ctx, &at())), "cons: the second argument `b' is not a list");
    assert_eq!(complaint(func_cons(&args_of("(a () c)"), &ctx, &at())), "cons: must have only two arguments");
}

#[test]
fn atom_eq_is_an_equivalence() {
    let ctx = Context::new_root();
    let eq = |code: &str| shown(func_atom_eq(&args_of(code), &ctx, &at()));
    assert_eq!(eq("(a)"), "true");
    assert_eq!(eq("(a a)"), "true");
    assert_eq!(eq("(a b)"), "()");
    assert_eq!(eq("(b a)"), "()");
    assert_eq!(eq("(a a a)"), "true");
    assert_eq!(eq("(a a b)"), "()");
    assert_eq!(eq("(a b a)"), "()");
    assert_eq!(eq("(a b b)"), "()");
    assert_eq!(
        complaint(func_atom_eq(&args_of("(a b (c))"), &ctx, &at())),
        "atom-eq?: argument #3 `(c)' is not an atom"
    );
    assert_eq!(
        complaint(func_atom_eq(&args_of("(a b () (c))"), &ctx, &at())),
        "atom-eq?: argument #3 `()' is not an atom"
    );
    assert_eq!(
        complaint(func_atom_eq(&args_of("()"), &ctx, &at())),
        "atom-eq?: must have at least one argument"
    );
    assert_eq!(
        complaint(func_atom_eq(&args_of("((x) a)"), &ctx, &at())),
        "atom-eq?: argument #1 `(x)' is not an atom"
    );
    assert_eq!(
        complaint(func_atom_eq(&args_of("(a a (x y))"), &ctx, &at())),
        "atom-eq?: argument #3 `(x y)' is not an atom"
    );
}

#[test]
fn atom_concat_joins_names() {
    let ctx = Context::new_root();
    assert_eq!(shown(func_atom_concat(&args_of("(a)"), &ctx, &at())), "a");
    assert_eq!(shown(func_atom_concat(&args_of("(1 2 3)"), &ctx, &at())), "123");
    assert!(matches!(func_atom_concat(&args_of("(ab cd)"), &ctx, &at()), Ok(Value::Atom(a)) if a.name == "abcd"));
    assert_eq!(
        complaint(func_atom_concat(&args_of("()"), &ctx, &at())),
        "atom-concat: must have at least one argument"
    );
    assert_eq!(
        complaint(func_atom_concat(&args_of("(a ())"), &ctx, &at())),
        "atom-concat: argument #2 `()' is not an atom"
    );
}

#[test]
fn predicates_hold_of_every_argument() {
    let ctx = Context::new_root();
    assert_eq!(shown(func_is_atom(&args_of("()"), &ctx, &at())), "true");
    assert_eq!(shown(func_is_atom(&args_of("(a b)"), &ctx, &at())), "true");
    assert_eq!(shown(func_is_atom(&args_of("(a (b))"), &ctx, &at())), "()");
    assert_eq!(shown(func_is_list(&args_of("()"), &ctx, &at())), "true");
    assert_eq!(shown(func_is_list(&args_of("(() (a))"), &ctx, &at())), "true");
    assert_eq!(shown(func_is_list(&args_of("(() a)"), &ctx, &at())), "()");
    assert_eq!(shown(func_is_fexpr(&args_of("()"), &ctx, &at())), "true");
    assert_eq!(shown(func_is_fexpr(&args_of("(a)"), &ctx, &at())), "()");
    let f = func_fexpr(&args_of("(x ())"), &ctx, &at()).unwrap();
    let one = cons(&f, ListRef::Value(&List::Empty));
    assert_eq!(shown(func_is_fexpr(&one, &ctx, &at())), "true");
    assert_eq!(shown(func_is_atom(&one, &ctx, &at())), "()");
    assert_eq!(shown(func_is_list(&one, &ctx, &at())), "()");
}

#[test]
fn quote_and_list() {
    let ctx = Context::new_root();
    assert_eq!(shown(func_quote(&args_of("((a b))"), &ctx, &at())), "(a b)");
    assert_eq!(complaint(func_quote(&args_of("()"), &ctx, &at())), "quote: must have an argument");
    assert_eq!(complaint(func_quote(&args_of("(a b)"), &ctx, &at())), "quote: must have only one argument");
    assert_eq!(shown(func_list(&args_of("(a (b) c)"), &ctx, &at())), "(a (b) c)");
    assert_eq!(shown(func_list(&args_of("()"), &ctx, &at())), "()");
}

#[test]
fn fexpr_checks_its_shape() {
    let ctx = Context::new_root();
    assert!(matches!(func_fexpr(&args_of("((a b) (x))"), &ctx, &at()), Ok(Value::Fexpr(_))));
    assert_eq!(complaint(func_fexpr(&args_of("()"), &ctx, &at())), "fexpr: must have two arguments");
    assert_eq!(
        complaint(func_fexpr(&args_of("((a (b)) ())"), &ctx, &at())),
        "fexpr: the argument list contains non-atom"
    );
    assert_eq!(complaint(func_fexpr(&args_of("(a)"), &ctx, &at())), "fexpr: must have a second argument");
    assert_eq!(complaint(func_fexpr(&args_of("(a b)"), &ctx, &at())), "fexpr: the body `b' is not a list");
    assert_eq!(complaint(func_fexpr(&args_of("(a () ())"), &ctx, &at())), "fexpr: must have only two arguments");
    let f = func_fexpr(&args_of("(x ())"), &ctx, &at()).unwrap();
    let bad = cons(&f, ListRef::Value(&args_of("(())")));
    assert_eq!(
        complaint(func_fexpr(&bad, &ctx, &at())),
        "fexpr: the first argument must be either an atom or a list of atoms"
    );
}

#[test]
fn list_operations() {
    let list = args_of("(a b c)");
    assert_eq!(list_len(ListRef::Value(&list)), 3);
    assert_eq!(list_len(ListRef::Value(&List::Empty)), 0);
    let mut it = ListIter::new(&list);
    let mut names = Vec::new();
    while let Some(v) = it.next() {
        names.push(v.atom_name().unwrap().clone());
    }
    assert_eq!(names, vec!["a", "b", "c"]);
    assert!(it.next().is_none());
    assert!(car(ListRef::Value(&List::Empty)).is_none());
    assert!(cdr(ListRef::Value(&List::Empty)).is_none());
    assert!(matches!(cdr(ListRef::Value(&args_of("(a)"))), Some(List::Empty)));
    let program = parse_str("(p q)").unwrap();
    match &program[0] {
        fexpr_lang::source::Value::List(l) => {
            assert_eq!(list_len(ListRef::Source(l)), 2);
            assert!(matches!(car(ListRef::Source(l)), Some(Value::SourceAtom(a)) if a.name == "p"));
            let rest = cdr(ListRef::Source(l)).unwrap();
            assert_eq!(list_len(ListRef::Value(&rest)), 1);
            let joined = cons(&Value::truth(), ListRef::Source(l));
            assert_eq!(shown(Ok(Value::List(joined))), "(true p q)");
        }
        other => panic!("not a list: {:?}", other),
    }
}

#[test]
fn shared_tails_stay_as_they_were() {
    let tail = args_of("(b c)");
    let first = cons(&Value::truth(), ListRef::Value(&tail));
    let second = cons(&Value::empty_list(), ListRef::Value(&tail));
    let copy = first.clone();
    assert_eq!(shown(Ok(Value::List(first))), "(true b c)");
    assert_eq!(shown(Ok(Value::List(second))), "(() b c)");
    assert_eq!(shown(Ok(Value::List(copy))), "(true b c)");
    assert_eq!(shown(Ok(Value::List(tail))), "(b c)");
}

#[test]
fn only_the_empty_list_counts_as_false() {
    assert!(!Value::empty_list().is_truthy());
    assert!(!Value::List(List::Empty).is_truthy());
    assert!(Value::truth().is_truthy());
    assert!(Value::List(args_of("(())")).is_truthy());
    let program = parse_str("() (a) false").unwrap();
    assert!(Value::from_source(&program[0]).is_truthy());
    assert!(Value::from_source(&program[1]).is_truthy());
    assert!(Value::from_source(&program[2]).is_truthy());
}
