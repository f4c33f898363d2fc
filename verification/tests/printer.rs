use fexpr_lang::env::Context;
use fexpr_lang::list::{cons, ListRef};
use fexpr_lang::primitives::func_fexpr;
use fexpr_lang::printer::print_decimal;
use fexpr_lang::source::SourceInfo;
use fexpr_lang::value::{Atom, Function, List, Value};
use fexpr_lang::{parse_str, print};

fn printed(v: &Value) -> String {
    let mut out = String::new();
    print(&mut out, v);
    out
}

fn list_of(items: &[Value]) -> List {
    let mut list = List::Empty;
    for v in items.iter().rev() {
        list = cons(v, ListRef::Value(&list));
    }
    list
}

#[test]
fn prints_atoms_and_lists() {
    let a = Value::Atom(Atom::new("a"));
    let b = Value::Atom(Atom::new("b c"));
    assert_eq!(printed(&a), "a");
    assert_eq!(printed(&Value::empty_list()), "()");
    let inner = Value::List(list_of(&[a.clone()]));
    assert_eq!(printed(&inner), "(a)");
    let outer = Value::List(list_of(&[a.clone(), inner, Value::empty_list(), b]));
    assert_eq!(printed(&outer), "(a (a) () b c)");
}

#[test]
fn print_appends() {
    let mut out = String::from("> ");
    print(&mut out, &Value::Atom(Atom::new("x")));
    fexpr_lang::println(&mut out, &Value::truth());
    assert_eq!(out, "> xtrue\n");
}

#[test]
fn source_forms_print_like_runtime_forms() {
    let program = parse_str("(a  (b\n c) () d)").unwrap();
    assert_eq!(printed(&Value::from_source(&program[0])), "(a (b c) () d)");
    let program = parse_str("name").unwrap();
    assert_eq!(printed(&Value::from_source(&program[0])), "name");
}

#[test]
fn prints_functions_under_their_names() {
    let names: Vec<String> = Function::all().iter().map(|f| printed(&Value::Function(*f))).collect();
    assert_eq!(
        names,
        vec![
            "puts", "puts!", "cond", "not", "assert", "eval", "eval!", "upeval", "upeval!",
            "define", "define!", "atom-concat", "atom-concat!", "atom-eq?", "atom-eq?!", "atom?",
            "atom?!", "list?", "list?!", "fexpr?", "fexpr?!", "begin!", "quote!", "list", "fexpr",
            "fexpr!", "car", "car!", "cdr", "cdr!", "cons", "cons!"
        ]
    );
}

#[test]
fn prints_fexprs() {
    let info = SourceInfo { name: "t".to_string(), lineno: 1, charno: 1 };
    let ctx = Context::new_root();
    let fexpr_of = |code: &str| {
        let program = parse_str(code).unwrap();
        let args = match Value::from_source(&program[0]).as_list() {
            Some(l) => fexpr_lang::primitives::to_list(l),
            None => panic!("not a list"),
        };
        func_fexpr(&args, &ctx, &info).unwrap()
    };
    assert_eq!(printed(&fexpr_of("((x y) ((atom-eq? x y)))")), "(fexpr! (x y) ((atom-eq? x y)))");
    assert_eq!(printed(&fexpr_of("(() ())")), "(fexpr! () ())");
    assert_eq!(printed(&fexpr_of("(args (a b))")), "(fexpr! args (a b))");
}

#[test]
fn prints_decimal_numbers() {
    for (n, text) in [(0usize, "0"), (7, "7"), (10, "10"), (109, "109"), (65535, "65535")] {
        let mut out = String::new();
        print_decimal(&mut out, n);
        assert_eq!(out, text);
    }
    let mut out = String::new();
    print_decimal(&mut out, usize::MAX);
    assert_eq!(out, usize::MAX.to_string());
}
