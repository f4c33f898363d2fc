use crate::env::Context;
use crate::error::{bad_args, bad_args_spec, result_view};
use crate::error::{Error, ErrorView};
use crate::list::{car, cdr, cons};
use crate::source::clamp;
use crate::list::{ListIter, ListRef};
use crate::printer::{decimal, print, print_decimal, value_text};
use crate::source::{SourceInfo, SourceInfoView};
use crate::value::{atom_names, empty_list, lemma_list_view_head, true_value};
use crate::value::{ArgList, ArgListView, Atom, Fexpr, List, ListHead, Value, ValueView};
use std::rc::Rc;
use vstd::prelude::*;
use vstd::string::StringExecFns;

verus! {

/// A message that quotes a value between two fixed parts.
pub open spec fn quoted(prefix: Seq<char>, v: ValueView, suffix: Seq<char>) -> Seq<char> {
    prefix + value_text(v) + suffix
}

/// A message that names an argument by its number and quotes it.
pub open spec fn numbered(
    prefix: Seq<char>,
    idx: usize,
    middle: Seq<char>,
    v: ValueView,
    suffix: Seq<char>,
) -> Seq<char> {
    prefix + decimal(idx as nat) + middle + value_text(v) + suffix
}

/// A message that quotes a value between two fixed parts.
pub fn quote_message(prefix: &str, v: &Value, suffix: &str) -> (res: String)
    ensures
        res@ == quoted(prefix@, v@, suffix@),
{
    let mut msg = prefix.to_owned();
    print(&mut msg, v);
    msg.append(suffix);
    msg
}

/// A message that names an argument by its number and quotes it.
pub fn number_message(prefix: &str, idx: usize, middle: &str, v: &Value, suffix: &str) -> (res:
    String)
    ensures
        res@ == numbered(prefix@, idx, middle@, v@, suffix@),
{
    let mut msg = prefix.to_owned();
    print_decimal(&mut msg, idx);
    msg.append(middle);
    print(&mut msg, v);
    msg.append(suffix);
    msg
}

/// The number after `idx`, as far as `usize` can count.
pub fn bump(idx: usize) -> (res: usize)
    ensures
        res == clamp((idx + 1) as nat),
{
    if idx < usize::MAX {
        idx + 1
    } else {
        idx
    }
}

impl Value {
    /// The list that a value is, runtime or source.
    pub fn as_list(&self) -> (res: Option<ListRef<'_>>)
        ensures
            match res {
                Some(l) => self@.list_items() == Some(l@),
                None => self@.list_items() is None,
            },
    {
        match self {
            Value::List(l) => Some(ListRef::Value(l)),
            Value::SourceList(l) => Some(ListRef::Source(l)),
            _ => None,
        }
    }
}

/// A runtime list with the elements of `list`.
pub fn to_list(list: ListRef) -> (res: List)
    ensures
        res@ == list@,
{
    match list {
        ListRef::Value(l) => l.clone(),
        ListRef::Source(s) => {
            let res = List::from_source(&s.list, 0);
            assert(res@ =~= list@);
            res
        },
    }
}

/// `atom-concat` from argument number `idx + 1` on, with the names so far
/// in `acc`.
pub open spec fn atom_concat_from(
    rest: Seq<ValueView>,
    idx: usize,
    acc: Seq<char>,
    source_info: SourceInfoView,
) -> Result<ValueView, ErrorView>
    decreases rest.len(),
{
    if rest.len() == 0 {
        if idx == 0 {
            Err(bad_args_spec(source_info, "atom-concat: must have at least one argument"@))
        } else {
            Ok(ValueView::Atom(acc))
        }
    } else {
        match rest[0].atom_name() {
            Some(name) => atom_concat_from(
                rest.drop_first(),
                clamp((idx + 1) as nat),
                acc + name,
                source_info,
            ),
            None => Err(
                bad_args_spec(
                    source_info,
                    numbered(
                        "atom-concat: argument #"@,
                        clamp((idx + 1) as nat),
                        " `"@,
                        rest[0],
                        "' is not an atom"@,
                    ),
                ),
            ),
        }
    }
}

/// `atom-concat`: the atom whose name is the names of the arguments in a
/// row. There must be an argument, and each must be an atom.
pub open spec fn atom_concat_spec(args: Seq<ValueView>, source_info: SourceInfoView) -> Result<
    ValueView,
    ErrorView,
> {
    atom_concat_from(args, 0, Seq::empty(), source_info)
}

pub fn func_atom_concat(args: &List, _parent_ctx: &Context, source_info: &SourceInfo) -> (res:
    Result<Value, Error>)
    ensures
        result_view(res) == atom_concat_spec(args@, source_info@),
{
    let mut idx: usize = 0;
    let mut buf = String::new();
    let mut it = ListIter::new(args);
    loop
        invariant
            atom_concat_spec(args@, source_info@) == atom_concat_from(
                it@,
                idx,
                buf@,
                source_info@,
            ),
        decreases it@.len(),
    {
        match it.next() {
            None => {
                if idx == 0 {
                    return Err(
                        bad_args(
                            source_info,
                            "atom-concat: must have at least one argument".to_owned(),
                        ),
                    );
                }
                return Ok(Value::Atom(Atom { name: buf }));
            },
            Some(v) => {
                idx = bump(idx);
                match v.atom_name() {
                    Some(name) => {
                        buf.append(name.as_str());
                    },
                    None => {
                        return Err(
                            bad_args(
                                source_info,
                                number_message(
                                    "atom-concat: argument #",
                                    idx,
                                    " `",
                                    v,
                                    "' is not an atom",
                                ),
                            ),
                        );
                    },
                }
            },
        }
    }
}

/// The place of the first value of a row, from `from` on, that is no atom.
pub open spec fn first_non_atom(args: Seq<ValueView>, from: int) -> Option<int>
    decreases args.len() - from,
{
    if from < 0 || from >= args.len() {
        None
    } else if args[from].atom_name() is None {
        Some(from)
    } else {
        first_non_atom(args, from + 1)
    }
}

/// Whether every value of a row has the name of the first.
pub open spec fn same_names(args: Seq<ValueView>) -> bool {
    forall|i: int| 0 <= i < args.len() ==> (#[trigger] args[i]).atom_name() == args[0].atom_name()
}

/// `atom-eq?`: true if its arguments all have one name, the empty list if
/// not. There must be an argument, and every argument must be an atom: the
/// error names the first that is none, whatever the names before it.
pub open spec fn atom_eq_spec(args: Seq<ValueView>, source_info: SourceInfoView) -> Result<
    ValueView,
    ErrorView,
> {
    if args.len() == 0 {
        Err(bad_args_spec(source_info, "atom-eq?: must have at least one argument"@))
    } else {
        match first_non_atom(args, 0) {
            Some(i) => Err(
                bad_args_spec(
                    source_info,
                    numbered(
                        "atom-eq?: argument #"@,
                        clamp((i + 1) as nat),
                        " `"@,
                        args[i],
                        "' is not an atom"@,
                    ),
                ),
            ),
            None => Ok(truth_value(same_names(args))),
        }
    }
}

/// Where atoms stand from `from` up to `upto`, the first value that is no
/// atom is the one at `upto`, if there is one and it is none.
pub proof fn lemma_first_non_atom(args: Seq<ValueView>, from: int, upto: int)
    requires
        0 <= from <= upto <= args.len(),
        forall|i: int| from <= i < upto ==> (#[trigger] args[i]).atom_name() is Some,
        upto < args.len() ==> args[upto].atom_name() is None,
    ensures
        first_non_atom(args, from) == if upto < args.len() {
            Some(upto)
        } else {
            None::<int>
        },
    decreases upto - from,
{
    if from < upto {
        lemma_first_non_atom(args, from + 1, upto);
    }
}

pub fn func_atom_eq(args: &List, _parent_ctx: &Context, source_info: &SourceInfo) -> (res: Result<
    Value,
    Error,
>)
    ensures
        result_view(res) == atom_eq_spec(args@, source_info@),
{
    let mut it = ListIter::new(args);
    let name = match it.next() {
        None => {
            return Err(
                bad_args(source_info, "atom-eq?: must have at least one argument".to_owned()),
            );
        },
        Some(v) => match v.atom_name() {
            Some(name) => name,
            None => {
                return Err(
                    bad_args(
                        source_info,
                        number_message("atom-eq?: argument #", 1, " `", v, "' is not an atom"),
                    ),
                );
            },
        },
    };
    let mut idx: usize = 1;
    let mut same = true;
    let ghost mut seen: int = 1;
    assert(args@.skip(0).drop_first() =~= args@.skip(1));
    assert(args@.skip(0) =~= args@);
    loop
        invariant
            1 <= seen <= args@.len(),
            it@ == args@.skip(seen),
            idx == clamp(seen as nat),
            args@[0].atom_name() == Some(name@),
            forall|i: int| 0 <= i < seen ==> (#[trigger] args@[i]).atom_name() is Some,
            same == (forall|i: int|
                0 <= i < seen ==> (#[trigger] args@[i]).atom_name() == args@[0].atom_name()),
        decreases it@.len(),
    {
        match it.next() {
            None => {
                proof {
                    lemma_first_non_atom(args@, 0, seen);
                }
                if same {
                    return Ok(Value::truth());
                } else {
                    return Ok(Value::empty_list());
                }
            },
            Some(v) => {
                assert(args@.skip(seen).drop_first() =~= args@.skip(seen + 1));
                assert(v@ == args@[seen]);
                idx = bump(idx);
                match v.atom_name() {
                    Some(other) => {
                        if *other != *name {
                            same = false;
                        }
                    },
                    None => {
                        proof {
                            lemma_first_non_atom(args@, 0, seen);
                        }
                        return Err(
                            bad_args(
                                source_info,
                                number_message(
                                    "atom-eq?: argument #",
                                    idx,
                                    " `",
                                    v,
                                    "' is not an atom",
                                ),
                            ),
                        );
                    },
                }
                proof {
                    seen = seen + 1;
                }
            },
        }
    }
}

/// Whether every value of a row is an atom.
pub open spec fn all_atoms(items: Seq<ValueView>) -> bool {
    forall|i: int| 0 <= i < items.len() ==> (#[trigger] items[i]).atom_name() is Some
}

/// Whether every value of a row is a list.
pub open spec fn all_lists(items: Seq<ValueView>) -> bool {
    forall|i: int| 0 <= i < items.len() ==> (#[trigger] items[i]).list_items() is Some
}

/// Whether every value of a row is a fexpr.
pub open spec fn all_fexprs(items: Seq<ValueView>) -> bool {
    forall|i: int| 0 <= i < items.len() ==> (#[trigger] items[i]) is Fexpr
}

/// The canonical true value for `true`, the empty list for `false`.
pub open spec fn truth_value(b: bool) -> ValueView {
    if b {
        true_value()
    } else {
        empty_list()
    }
}

/// `atom?`: true if every argument is an atom.
pub fn func_is_atom(args: &List, _parent_ctx: &Context, _source_info: &SourceInfo) -> (res: Result<
    Value,
    Error,
>)
    ensures
        result_view(res) == Ok::<ValueView, ErrorView>(truth_value(all_atoms(args@))),
{
    let mut it = ListIter::new(args);
    let ghost mut seen: int = 0;
    loop
        invariant
            0 <= seen <= args@.len(),
            it@ == args@.skip(seen),
            forall|i: int| 0 <= i < seen ==> (#[trigger] args@[i]).atom_name() is Some,
        decreases it@.len(),
    {
        match it.next() {
            None => {
                return Ok(Value::truth());
            },
            Some(v) => {
                assert(args@.skip(seen).drop_first() =~= args@.skip(seen + 1));
                if v.atom_name().is_none() {
                    assert(args@[seen].atom_name() is None);
                    return Ok(Value::empty_list());
                }
                proof {
                    seen = seen + 1;
                }
            },
        }
    }
}

/// `list?`: true if every argument is a list, runtime or source.
pub fn func_is_list(args: &List, _parent_ctx: &Context, _source_info: &SourceInfo) -> (res: Result<
    Value,
    Error,
>)
    ensures
        result_view(res) == Ok::<ValueView, ErrorView>(truth_value(all_lists(args@))),
{
    let mut it = ListIter::new(args);
    let ghost mut seen: int = 0;
    loop
        invariant
            0 <= seen <= args@.len(),
            it@ == args@.skip(seen),
            forall|i: int| 0 <= i < seen ==> (#[trigger] args@[i]).list_items() is Some,
        decreases it@.len(),
    {
        match it.next() {
            None => {
                return Ok(Value::truth());
            },
            Some(v) => {
                assert(args@.skip(seen).drop_first() =~= args@.skip(seen + 1));
                if v.as_list().is_none() {
                    assert(args@[seen].list_items() is None);
                    return Ok(Value::empty_list());
                }
                proof {
                    seen = seen + 1;
                }
            },
        }
    }
}

/// `fexpr?`: true if every argument is a fexpr.
pub fn func_is_fexpr(args: &List, _parent_ctx: &Context, _source_info: &SourceInfo) -> (res:
    Result<Value, Error>)
    ensures
        result_view(res) == Ok::<ValueView, ErrorView>(truth_value(all_fexprs(args@))),
{
    let mut it = ListIter::new(args);
    let ghost mut seen: int = 0;
    loop
        invariant
            0 <= seen <= args@.len(),
            it@ == args@.skip(seen),
            forall|i: int| 0 <= i < seen ==> (#[trigger] args@[i]) is Fexpr,
        decreases it@.len(),
    {
        match it.next() {
            None => {
                return Ok(Value::truth());
            },
            Some(v) => {
                assert(args@.skip(seen).drop_first() =~= args@.skip(seen + 1));
                match v {
                    Value::Fexpr(_) => {},
                    _ => {
                        assert(!(args@[seen] is Fexpr));
                        return Ok(Value::empty_list());
                    },
                }
                proof {
                    seen = seen + 1;
                }
            },
        }
    }
}

/// `quote!`: its one argument, as it is.
pub open spec fn quote_spec(args: Seq<ValueView>, source_info: SourceInfoView) -> Result<
    ValueView,
    ErrorView,
> {
    if args.len() == 0 {
        Err(bad_args_spec(source_info, "quote: must have an argument"@))
    } else if args.len() > 1 {
        Err(bad_args_spec(source_info, "quote: must have only one argument"@))
    } else {
        Ok(args[0])
    }
}

pub fn func_quote(args: &List, _parent_ctx: &Context, source_info: &SourceInfo) -> (res: Result<
    Value,
    Error,
>)
    ensures
        result_view(res) == quote_spec(args@, source_info@),
{
    let mut it = ListIter::new(args);
    let val = match it.next() {
        Some(v) => v,
        None => {
            return Err(bad_args(source_info, "quote: must have an argument".to_owned()));
        },
    };
    if it.next().is_some() {
        return Err(bad_args(source_info, "quote: must have only one argument".to_owned()));
    }
    Ok(val.clone())
}

/// `list`: its arguments as a list.
pub fn func_list(args: &List, _parent_ctx: &Context, _source_info: &SourceInfo) -> (res: Result<
    Value,
    Error,
>)
    ensures
        result_view(res) == Ok::<ValueView, ErrorView>(ValueView::List(args@)),
{
    Ok(Value::List(args.clone()))
}

/// The names of a row of atoms.
pub open spec fn names_of(items: Seq<ValueView>) -> Seq<Seq<char>> {
    Seq::new(items.len(), |i: int| items[i].atom_name().unwrap())
}

/// The parameter declaration that a value is: an atom takes the whole
/// argument list, a list of atoms one argument each.
pub open spec fn param_decl(v: ValueView) -> Result<ArgListView, Seq<char>> {
    match v.atom_name() {
        Some(name) => Ok(ArgListView::Vargs(name)),
        None => match v.list_items() {
            Some(items) => {
                if all_atoms(items) {
                    Ok(ArgListView::Args(names_of(items)))
                } else {
                    Err("fexpr: the argument list contains non-atom"@)
                }
            },
            None => Err("fexpr: the first argument must be either an atom or a list of atoms"@),
        },
    }
}

/// `fexpr`: the fexpr of a parameter declaration and a body, which must be
/// a list.
pub open spec fn fexpr_spec(args: Seq<ValueView>, source_info: SourceInfoView) -> Result<
    ValueView,
    ErrorView,
> {
    if args.len() == 0 {
        Err(bad_args_spec(source_info, "fexpr: must have two arguments"@))
    } else {
        match param_decl(args[0]) {
            Err(msg) => Err(bad_args_spec(source_info, msg)),
            Ok(params) => {
                if args.len() == 1 {
                    Err(bad_args_spec(source_info, "fexpr: must have a second argument"@))
                } else {
                    match args[1].list_items() {
                        None => Err(
                            bad_args_spec(
                                source_info,
                                quoted("fexpr: the body `"@, args[1], "' is not a list"@),
                            ),
                        ),
                        Some(body) => {
                            if args.len() > 2 {
                                Err(
                                    bad_args_spec(
                                        source_info,
                                        "fexpr: must have only two arguments"@,
                                    ),
                                )
                            } else {
                                Ok(ValueView::Fexpr { params, body })
                            }
                        },
                    }
                }
            },
        }
    }
}

/// The atoms of a list, if it holds nothing else.
pub fn collect_atoms(list: &List) -> (res: Option<Vec<Atom>>)
    ensures
        match res {
            Some(atoms) => all_atoms(list@) && atom_names(atoms@) == names_of(list@),
            None => !all_atoms(list@),
        },
{
    let mut atoms: Vec<Atom> = Vec::new();
    let mut it = ListIter::new(list);
    loop
        invariant
            atoms@.len() <= list@.len(),
            it@ == list@.skip(atoms@.len() as int),
            forall|i: int|
                0 <= i < atoms@.len() ==> (#[trigger] list@[i]).atom_name() == Some(
                    atoms@[i].name@,
                ),
        decreases it@.len(),
    {
        let ghost seen = atoms@.len() as int;
        match it.next() {
            None => {
                assert(atom_names(atoms@) =~= names_of(list@));
                return Some(atoms);
            },
            Some(v) => {
                assert(list@.skip(seen).drop_first() =~= list@.skip(seen + 1));
                match v.atom_name() {
                    Some(name) => {
                        atoms.push(Atom { name: name.clone() });
                    },
                    None => {
                        assert(list@[seen].atom_name() is None);
                        return None;
                    },
                }
            },
        }
    }
}

pub fn func_fexpr(args: &List, _parent_ctx: &Context, source_info: &SourceInfo) -> (res: Result<
    Value,
    Error,
>)
    ensures
        result_view(res) == fexpr_spec(args@, source_info@),
{
    let mut it = ListIter::new(args);
    let arg_list = match it.next() {
        None => {
            return Err(bad_args(source_info, "fexpr: must have two arguments".to_owned()));
        },
        Some(v) => match v.atom_name() {
            Some(name) => ArgList::Vargs(Atom { name: name.clone() }),
            None => match v.as_list() {
                Some(l) => match collect_atoms(&to_list(l)) {
                    Some(atoms) => ArgList::Args(Rc::new(atoms)),
                    None => {
                        return Err(
                            bad_args(
                                source_info,
                                "fexpr: the argument list contains non-atom".to_owned(),
                            ),
                        );
                    },
                },
                None => {
                    return Err(
                        bad_args(
                            source_info,
                            "fexpr: the first argument must be either an atom or a list of atoms".to_owned(),
                        ),
                    );
                },
            },
        },
    };
    let body = match it.next() {
        None => {
            return Err(bad_args(source_info, "fexpr: must have a second argument".to_owned()));
        },
        Some(v) => match v.as_list() {
            Some(l) => to_list(l),
            None => {
                return Err(
                    bad_args(
                        source_info,
                        quote_message("fexpr: the body `", v, "' is not a list"),
                    ),
                );
            },
        },
    };
    if it.next().is_some() {
        return Err(bad_args(source_info, "fexpr: must have only two arguments".to_owned()));
    }
    Ok(Value::Fexpr(Fexpr { arg_list, body }))
}

/// `car`: the first element of its one argument, a list; the empty list if
/// there is none.
pub open spec fn car_spec(args: Seq<ValueView>, source_info: SourceInfoView) -> Result<
    ValueView,
    ErrorView,
> {
    if args.len() == 0 {
        Err(bad_args_spec(source_info, "car: must have an argument"@))
    } else {
        match args[0].list_items() {
            None => Err(
                bad_args_spec(source_info, quoted("car: argument `"@, args[0], "' is not a list"@)),
            ),
            Some(items) => {
                if args.len() > 1 {
                    Err(bad_args_spec(source_info, "car: must have only one argument"@))
                } else if items.len() == 0 {
                    Ok(empty_list())
                } else {
                    Ok(items[0])
                }
            },
        }
    }
}

pub fn func_car(args: &List, _parent_ctx: &Context, source_info: &SourceInfo) -> (res: Result<
    Value,
    Error,
>)
    ensures
        result_view(res) == car_spec(args@, source_info@),
{
    let mut it = ListIter::new(args);
    let list = match it.next() {
        None => {
            return Err(bad_args(source_info, "car: must have an argument".to_owned()));
        },
        Some(v) => match v.as_list() {
            Some(l) => l,
            None => {
                return Err(
                    bad_args(source_info, quote_message("car: argument `", v, "' is not a list")),
                );
            },
        },
    };
    if it.next().is_some() {
        return Err(bad_args(source_info, "car: must have only one argument".to_owned()));
    }
    match car(list) {
        Some(v) => Ok(v),
        None => Ok(Value::empty_list()),
    }
}

/// `cdr`: the elements after the first of its one argument, a list; the
/// empty list if there are none.
pub open spec fn cdr_spec(args: Seq<ValueView>, source_info: SourceInfoView) -> Result<
    ValueView,
    ErrorView,
> {
    if args.len() == 0 {
        Err(bad_args_spec(source_info, "cdr: must have an argument"@))
    } else {
        match args[0].list_items() {
            None => Err(
                bad_args_spec(source_info, quoted("cdr: argument `"@, args[0], "' is not a list"@)),
            ),
            Some(items) => {
                if args.len() > 1 {
                    Err(bad_args_spec(source_info, "cdr: must have only one argument"@))
                } else if items.len() == 0 {
                    Ok(empty_list())
                } else {
                    Ok(ValueView::List(items.drop_first()))
                }
            },
        }
    }
}

pub fn func_cdr(args: &List, _parent_ctx: &Context, source_info: &SourceInfo) -> (res: Result<
    Value,
    Error,
>)
    ensures
        result_view(res) == cdr_spec(args@, source_info@),
{
    let mut it = ListIter::new(args);
    let list = match it.next() {
        None => {
            return Err(bad_args(source_info, "cdr: must have an argument".to_owned()));
        },
        Some(v) => match v.as_list() {
            Some(l) => l,
            None => {
                return Err(
                    bad_args(source_info, quote_message("cdr: argument `", v, "' is not a list")),
                );
            },
        },
    };
    if it.next().is_some() {
        return Err(bad_args(source_info, "cdr: must have only one argument".to_owned()));
    }
    match cdr(list) {
        Some(l) => Ok(Value::List(l)),
        None => Ok(Value::empty_list()),
    }
}

/// `cons`: the list of its first argument followed by the elements of its
/// second, a list.
pub open spec fn cons_spec(args: Seq<ValueView>, source_info: SourceInfoView) -> Result<
    ValueView,
    ErrorView,
> {
    if args.len() == 0 {
        Err(bad_args_spec(source_info, "cons: must have two arguments"@))
    } else if args.len() == 1 {
        Err(bad_args_spec(source_info, "cons: must have a second argument"@))
    } else {
        match args[1].list_items() {
            None => Err(
                bad_args_spec(
                    source_info,
                    quoted("cons: the second argument `"@, args[1], "' is not a list"@),
                ),
            ),
            Some(items) => {
                if args.len() > 2 {
                    Err(bad_args_spec(source_info, "cons: must have only two arguments"@))
                } else {
                    Ok(ValueView::List(seq![args[0]] + items))
                }
            },
        }
    }
}

pub fn func_cons(args: &List, _parent_ctx: &Context, source_info: &SourceInfo) -> (res: Result<
    Value,
    Error,
>)
    ensures
        result_view(res) == cons_spec(args@, source_info@),
{
    let mut it = ListIter::new(args);
    let head = match it.next() {
        Some(v) => v,
        None => {
            return Err(bad_args(source_info, "cons: must have two arguments".to_owned()));
        },
    };
    let tail = match it.next() {
        None => {
            return Err(bad_args(source_info, "cons: must have a second argument".to_owned()));
        },
        Some(v) => match v.as_list() {
            Some(l) => l,
            None => {
                return Err(
                    bad_args(
                        source_info,
                        quote_message("cons: the second argument `", v, "' is not a list"),
                    ),
                );
            },
        },
    };
    if it.next().is_some() {
        return Err(bad_args(source_info, "cons: must have only two arguments".to_owned()));
    }
    Ok(Value::List(cons(head, tail)))
}

/// `car` of a `cons` is the element that was put in front, and `cdr` of it
/// holds the elements of the list it was put in front of; where that list
/// was a runtime list, `cdr` gives it back.
pub proof fn lemma_car_cdr_cons(x: ValueView, l: ValueView, source_info: SourceInfoView)
    requires
        l.list_items() is Some,
    ensures
        cons_spec(seq![x, l], source_info) matches Ok(pair) && car_spec(seq![pair], source_info)
            == Ok::<ValueView, ErrorView>(x) && cdr_spec(seq![pair], source_info) == Ok::<
            ValueView,
            ErrorView,
        >(ValueView::List(l.list_items().unwrap())),
        l is List ==> cdr_spec(seq![cons_spec(seq![x, l], source_info)->Ok_0], source_info) == Ok::<
            ValueView,
            ErrorView,
        >(l),
{
    let items = l.list_items().unwrap();
    let joined = seq![x] + items;
    assert(joined.drop_first() =~= items);
}

/// `car` and `cdr` of the empty list are the empty list.
pub proof fn lemma_car_cdr_empty(source_info: SourceInfoView)
    ensures
        car_spec(seq![empty_list()], source_info) == Ok::<ValueView, ErrorView>(empty_list()),
        cdr_spec(seq![empty_list()], source_info) == Ok::<ValueView, ErrorView>(empty_list()),
{
}

/// `atom-eq?` of two atoms is true exactly if they have one name.
pub proof fn lemma_atom_eq_pair(a: ValueView, b: ValueView, source_info: SourceInfoView)
    requires
        a.atom_name() is Some,
        b.atom_name() is Some,
    ensures
        atom_eq_spec(seq![a, b], source_info) == Ok::<ValueView, ErrorView>(
            truth_value(a.atom_name() == b.atom_name()),
        ),
{
    let args = seq![a, b];
    lemma_first_non_atom(args, 0, 2);
    if a.atom_name() == b.atom_name() {
        assert(same_names(args));
    } else {
        assert(args[1].atom_name() != args[0].atom_name());
    }
}

/// `atom-eq?` fails where an argument is no atom, also behind atoms of
/// different names.
pub proof fn lemma_atom_eq_needs_atoms(args: Seq<ValueView>, at: int, source_info: SourceInfoView)
    requires
        0 <= at < args.len(),
        args[at].atom_name() is None,
    ensures
        atom_eq_spec(args, source_info) is Err,
{
    lemma_non_atom_found(args, 0, at);
}

proof fn lemma_non_atom_found(args: Seq<ValueView>, from: int, at: int)
    requires
        0 <= from <= at < args.len(),
        args[at].atom_name() is None,
    ensures
        first_non_atom(args, from) is Some,
    decreases at - from,
{
    if from < at {
        lemma_non_atom_found(args, from + 1, at);
    }
}

/// On atoms `atom-eq?` is an equivalence: it holds of an atom and itself,
/// of two atoms in either order alike, and of the first and the third of
/// three atoms where it holds of the first two and of the last two.
pub proof fn lemma_atom_eq_equivalence(
    a: ValueView,
    b: ValueView,
    c: ValueView,
    source_info: SourceInfoView,
)
    requires
        a.atom_name() is Some,
        b.atom_name() is Some,
        c.atom_name() is Some,
    ensures
        atom_eq_spec(seq![a, a], source_info) == Ok::<ValueView, ErrorView>(true_value()),
        atom_eq_spec(seq![a, b], source_info) == atom_eq_spec(seq![b, a], source_info),
        atom_eq_spec(seq![a, b], source_info) == Ok::<ValueView, ErrorView>(true_value())
            && atom_eq_spec(seq![b, c], source_info) == Ok::<ValueView, ErrorView>(true_value())
            ==> atom_eq_spec(seq![a, c], source_info) == Ok::<ValueView, ErrorView>(true_value()),
{
    lemma_atom_eq_pair(a, a, source_info);
    lemma_atom_eq_pair(a, b, source_info);
    lemma_atom_eq_pair(b, a, source_info);
    lemma_atom_eq_pair(b, c, source_info);
    lemma_atom_eq_pair(a, c, source_info);
}

/// `atom-eq?` of one atom is true, and `atom-concat` of one atom is the
/// runtime atom of its name.
pub proof fn lemma_single_atom(a: ValueView, source_info: SourceInfoView)
    requires
        a.atom_name() is Some,
    ensures
        atom_eq_spec(seq![a], source_info) == Ok::<ValueView, ErrorView>(true_value()),
        atom_concat_spec(seq![a], source_info) == Ok::<ValueView, ErrorView>(
            ValueView::Atom(a.atom_name().unwrap()),
        ),
{
    let rest = seq![a].drop_first();
    assert(rest.len() == 0);
    lemma_first_non_atom(seq![a], 0, 1);
    assert(same_names(seq![a]));
    reveal_with_fuel(atom_concat_from, 2);
    assert(Seq::<char>::empty() + a.atom_name().unwrap() =~= a.atom_name().unwrap());
}

} // verus!
