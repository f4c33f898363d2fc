use fexpr_lang::env::{create_root_context, define, define_weak, lookup, Context};
use fexpr_lang::error::Error;
use fexpr_lang::print;
use fexpr_lang::source::SourceInfo;
use fexpr_lang::value::{Atom, Function, Value};

fn here() -> SourceInfo {
    SourceInfo { name: "env".to_string(), lineno: 3, charno: 4 }
}

fn found(ctx: &Context, name: &str) -> String {
    let mut out = String::new();
    print(&mut out, &lookup(&Atom::new(name), ctx, &here()).unwrap());
    out
}

#[test]
fn unbound_names_stand_for_themselves() {
    let root = Context::new_root();
    assert!(matches!(lookup(&Atom::new("nowhere"), &root, &here()), Ok(Value::Atom(a)) if a.name == "nowhere"));
    let child = Context::new(&root);
    let grandchild = Context::new_upeval(&child);
    assert!(matches!(lookup(&Atom::new("x y"), &grandchild, &here()), Ok(Value::Atom(a)) if a.name == "x y"));
}

#[test]
fn strong_definitions_cannot_be_repeated() {
    let mut root = Context::new_root();
    define(&Atom::new("a"), Value::Atom(Atom::new("1")), &mut root, &here()).unwrap();
    match define(&Atom::new("a"), Value::Atom(Atom::new("2")), &mut root, &here()) {
        Err(Error::Redefinition { source_info, key, old_val, new_val }) => {
            assert_eq!((source_info.lineno, source_info.charno), (3, 4));
            assert_eq!(key.name, "a");
            assert!(matches!(old_val, Value::Atom(a) if a.name == "1"));
            assert!(matches!(new_val, Value::Atom(a) if a.name == "2"));
        }
        other => panic!("no redefinition error: {:?}", other),
    }
    assert_eq!(found(&root, "a"), "1");
}

#[test]
fn child_frames_shadow() {
    let mut root = Context::new_root();
    define(&Atom::new("a"), Value::Atom(Atom::new("1")), &mut root, &here()).unwrap();
    {
        let mut child = Context::new(&root);
        assert_eq!(found(&child, "a"), "1");
        define(&Atom::new("a"), Value::Atom(Atom::new("2")), &mut child, &here()).unwrap();
        assert_eq!(found(&child, "a"), "2");
    }
    assert_eq!(found(&root, "a"), "1");
}

#[test]
fn weak_definitions_yield_to_strong_ones() {
    let mut root = Context::new_root();
    define_weak(&Atom::new("p"), Value::Atom(Atom::new("w1")), &mut root);
    assert_eq!(found(&root, "p"), "w1");
    define_weak(&Atom::new("p"), Value::Atom(Atom::new("w2")), &mut root);
    assert_eq!(found(&root, "p"), "w2");
    define(&Atom::new("p"), Value::Atom(Atom::new("s")), &mut root, &here()).unwrap();
    assert_eq!(found(&root, "p"), "s");
    define_weak(&Atom::new("p"), Value::Atom(Atom::new("w3")), &mut root);
    assert_eq!(found(&root, "p"), "s");
}

#[test]
fn root_frame_binds_primitives_and_literals() {
    let mut root = create_root_context();
    for f in Function::all() {
        let name = f.name();
        assert!(matches!(lookup(&Atom::new(name), &root, &here()), Ok(Value::Function(g)) if g == f));
    }
    assert!(matches!(lookup(&Atom::new("SPACE"), &root, &here()), Ok(Value::Atom(a)) if a.name == " "));
    assert!(matches!(lookup(&Atom::new("LPAR"), &root, &here()), Ok(Value::Atom(a)) if a.name == "("));
    assert!(matches!(lookup(&Atom::new("RPAR"), &root, &here()), Ok(Value::Atom(a)) if a.name == ")"));
    assert!(root.parent().is_none());
    assert!(!root.is_upeval());
    define(&Atom::new("car"), Value::Atom(Atom::new("mine")), &mut root, &here()).unwrap();
    assert_eq!(found(&root, "car"), "mine");
}

#[test]
fn frames_know_how_they_were_made() {
    let root = Context::new_root();
    let plain = Context::new(&root);
    let shell = Context::new_upeval(&plain);
    assert!(!plain.is_upeval());
    assert!(shell.is_upeval());
    assert!(shell.parent().is_some());
    assert!(shell.parent().unwrap().parent().unwrap().parent().is_none());
}
