use fexpr_lang::list::{list_len, ListRef};
use fexpr_lang::parse_str;
use fexpr_lang::source;
use fexpr_lang::value::{Atom, List, Value};
use std::collections::{BTreeSet, HashSet};

#[test]
fn atoms_are_equal_by_name() {
    assert_eq!(Atom::new("a"), Atom::new("a"));
    assert_ne!(Atom::new("a"), Atom::new("b"));
    assert!(Atom::new("a") < Atom::new("b"));
    let hashed: HashSet<Atom> = [Atom::new("x"), Atom::new("y"), Atom::new("x")].into_iter().collect();
    assert_eq!(hashed.len(), 2);
    let ordered: BTreeSet<Atom> = [Atom::new("q"), Atom::new("p"), Atom::new("q")].into_iter().collect();
    let names: Vec<&str> = ordered.iter().map(|a| a.name.as_str()).collect();
    assert_eq!(names, vec!["p", "q"]);
}

#[test]
fn source_atoms_become_atoms_of_the_same_name() {
    let program = parse_str("  somewhere").unwrap();
    match &program[0] {
        source::Value::Atom(a) => {
            assert_eq!(Atom::from(a), Atom::new("somewhere"));
            assert_eq!(Atom::from_source(a), Atom::new("somewhere"));
        }
        other => panic!("not an atom: {:?}", other),
    }
}

#[test]
fn conversions_keep_what_they_are_given() {
    assert!(matches!(Value::from(Atom::new("a")), Value::Atom(a) if a.name == "a"));
    assert!(matches!(Value::from(List::Empty), Value::List(List::Empty)));
    let program = parse_str("(a b) c").unwrap();
    assert!(matches!(Value::from(&program[0]), Value::SourceList(l) if l.list.len() == 2));
    assert!(matches!(Value::from(&program[1]), Value::SourceAtom(a) if a.name == "c"));
    assert!(bool::from(&Value::truth()));
    assert!(!bool::from(&Value::empty_list()));
    let empty = List::Empty;
    assert_eq!(list_len(ListRef::from(&empty)), 0);
    match &program[0] {
        source::Value::List(l) => assert_eq!(list_len(ListRef::from(l)), 2),
        other => panic!("not a list: {:?}", other),
    }
}

#[test]
fn source_lists_become_runtime_lists() {
    let program = parse_str("(a (b) c)").unwrap();
    match &program[0] {
        source::Value::List(l) => {
            assert_eq!(list_len(ListRef::Value(&List::from_source(&l.list, 0))), 3);
            assert_eq!(list_len(ListRef::Value(&List::from_source(&l.list, 2))), 1);
            assert!(matches!(List::from_source(&l.list, 3), List::Empty));
        }
        other => panic!("not a list: {:?}", other),
    }
}
