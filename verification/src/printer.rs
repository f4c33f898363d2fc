use crate::source;
use crate::source::SourceValueView;
use crate::value::{function_name, lemma_list_view_head};
use crate::value::{ArgList, ArgListView, Atom, Fexpr, Function, List, Value, ValueView};
use vstd::prelude::*;
use vstd::string::StringExecFns;

verus! {

/// The text of a source value: an atom is its name, a list its children
/// between parentheses, one space between two of them.
pub open spec fn source_text(v: SourceValueView) -> Seq<char>
    decreases v,
{
    match v {
        SourceValueView::Atom { name, .. } => name,
        SourceValueView::List { items, .. } => seq!['('] + source_items_text(items, true) + seq![
            ')',
        ],
    }
}

/// The texts of source values in a row. All but a `first` one are preceded
/// by a space.
pub open spec fn source_items_text(items: Seq<SourceValueView>, first: bool) -> Seq<char>
    decreases items,
{
    if items.len() == 0 {
        Seq::empty()
    } else {
        gap(first) + source_text(items[0]) + source_items_text(items.drop_first(), false)
    }
}

/// What separates an element from the one before it.
pub open spec fn gap(first: bool) -> Seq<char> {
    if first {
        Seq::empty()
    } else {
        seq![' ']
    }
}

/// Names in a row, one space between two of them.
pub open spec fn names_text(names: Seq<Seq<char>>, first: bool) -> Seq<char>
    decreases names.len(),
{
    if names.len() == 0 {
        Seq::empty()
    } else {
        gap(first) + names[0] + names_text(names.drop_first(), false)
    }
}

/// The text of a parameter declaration: a bare name, or names between
/// parentheses.
pub open spec fn params_text(params: ArgListView) -> Seq<char> {
    match params {
        ArgListView::Vargs(name) => name,
        ArgListView::Args(names) => seq!['('] + names_text(names, true) + seq![')'],
    }
}

/// The canonical text of a value. Source forms print as their runtime
/// counterparts do.
pub open spec fn value_text(v: ValueView) -> Seq<char>
    decreases v,
{
    match v {
        ValueView::Atom(name) => name,
        ValueView::SourceAtom { name, .. } => name,
        ValueView::List(items) => seq!['('] + items_text(items, true) + seq![')'],
        ValueView::SourceList { items, .. } => seq!['('] + source_items_text(items, true) + seq![
            ')',
        ],
        ValueView::Fexpr { params, body } => "(fexpr! "@ + params_text(params) + seq![' ', '(']
            + items_text(body, true) + seq![')', ')'],
        ValueView::Function(f) => function_name(f),
    }
}

/// The texts of values in a row. All but a `first` one are preceded by a
/// space.
pub open spec fn items_text(items: Seq<ValueView>, first: bool) -> Seq<char>
    decreases items,
{
    if items.len() == 0 {
        Seq::empty()
    } else {
        gap(first) + value_text(items[0]) + items_text(items.drop_first(), false)
    }
}

fn print_gap(out: &mut String, first: bool)
    ensures
        final(out)@ == old(out)@ + gap(first),
{
    if !first {
        out.push(' ');
    }
    assert(out@ =~= old(out)@ + gap(first));
}

fn print_name(out: &mut String, name: &String)
    ensures
        final(out)@ == old(out)@ + name@,
{
    out.append(name.as_str());
}

fn print_atom(out: &mut String, atom: &Atom)
    ensures
        final(out)@ == old(out)@ + atom@,
{
    print_name(out, &atom.name);
}

fn print_source_atom(out: &mut String, atom: &source::Atom)
    ensures
        final(out)@ == old(out)@ + atom.name@,
{
    print_name(out, &atom.name);
}

fn print_function(out: &mut String, func: &Function)
    ensures
        final(out)@ == old(out)@ + function_name(*func),
{
    out.append(func.name());
}

fn print_source_value(out: &mut String, val: &source::Value)
    ensures
        final(out)@ == old(out)@ + source_text(val@),
    decreases val,
{
    match val {
        source::Value::Atom(atom) => print_source_atom(out, atom),
        source::Value::List(list) => print_source_list(out, list),
    }
}

fn print_source_list(out: &mut String, list: &source::List)
    ensures
        final(out)@ == old(out)@ + seq!['('] + source_items_text(source::views(list.list@), true)
            + seq![')'],
        source_text(source::Value::List(*list)@) == seq!['('] + source_items_text(
            source::views(list.list@),
            true,
        ) + seq![')'],
    decreases list,
{
    proof {
        source::lemma_list_view(list);
    }
    out.push('(');
    let ghost items = source::views(list.list@);
    let ghost start = out@;
    let n = list.list.len();
    let mut i: usize = 0;
    assert(items.skip(0) =~= items);
    while i < n
        invariant
            i <= n,
            n == list.list@.len(),
            items == source::views(list.list@),
            out@ + source_items_text(items.skip(i as int), i == 0) == start + source_items_text(
                items,
                true,
            ),
        decreases n - i,
    {
        let ghost before = out@;
        let ghost rest = items.skip(i as int);
        assert(rest.drop_first() =~= items.skip(i + 1));
        assert(rest[0] == list.list@[i as int]@);
        print_gap(out, i == 0);
        print_source_value(out, &list.list[i]);
        assert(out@ + source_items_text(items.skip(i + 1), false) =~= before + source_items_text(
            rest,
            i == 0,
        ));
        i = i + 1;
    }
    assert(items.skip(n as int) =~= Seq::empty());
    assert(out@ =~= start + source_items_text(items, true));
    out.push(')');
    assert(out@ =~= old(out)@ + seq!['('] + source_items_text(items, true) + seq![')']);
}

/// Appends the canonical text of a value to `out`.
pub fn print(out: &mut String, val: &Value)
    ensures
        final(out)@ == old(out)@ + value_text(val@),
    decreases val,
{
    match val {
        Value::Atom(atom) => print_atom(out, atom),
        Value::List(list) => print_list(out, list),
        Value::SourceAtom(atom) => print_source_atom(out, atom),
        Value::SourceList(list) => print_source_list(out, list),
        Value::Fexpr(fexpr) => print_fexpr(out, fexpr),
        Value::Function(func) => print_function(out, func),
    }
}

fn print_cells(out: &mut String, list: &List, first: bool)
    ensures
        final(out)@ == old(out)@ + items_text(list@, first),
    decreases list, 0nat,
{
    match list {
        List::Empty => {
            assert(out@ =~= old(out)@ + items_text(list@, first));
        },
        List::Head(head) => {
            proof {
                lemma_list_view_head(&**head);
            }
            print_gap(out, first);
            print(out, &head.val);
            print_cells(out, &head.tail, false);
            assert(out@ =~= old(out)@ + items_text(list@, first));
        },
    }
}

fn print_list(out: &mut String, list: &List)
    ensures
        final(out)@ == old(out)@ + seq!['('] + items_text(list@, true) + seq![')'],
    decreases list, 1nat,
{
    out.push('(');
    print_cells(out, list, true);
    out.push(')');
    assert(out@ =~= old(out)@ + seq!['('] + items_text(list@, true) + seq![')']);
}

fn print_names(out: &mut String, names: &Vec<Atom>)
    ensures
        final(out)@ == old(out)@ + names_text(crate::value::atom_names(names@), true),
{
    let ghost all = crate::value::atom_names(names@);
    let ghost start = out@;
    let n = names.len();
    let mut i: usize = 0;
    assert(all.skip(0) =~= all);
    while i < n
        invariant
            i <= n,
            n == names@.len(),
            all == crate::value::atom_names(names@),
            out@ + names_text(all.skip(i as int), i == 0) == start + names_text(all, true),
        decreases n - i,
    {
        let ghost before = out@;
        let ghost rest = all.skip(i as int);
        assert(rest.drop_first() =~= all.skip(i + 1));
        assert(rest[0] == names@[i as int].name@);
        print_gap(out, i == 0);
        print_atom(out, &names[i]);
        assert(out@ + names_text(all.skip(i + 1), false) =~= before + names_text(rest, i == 0));
        i = i + 1;
    }
    assert(all.skip(n as int) =~= Seq::empty());
    assert(out@ =~= start + names_text(all, true));
}

fn print_fexpr(out: &mut String, fexpr: &Fexpr)
    ensures
        final(out)@ == old(out)@ + value_text(Value::Fexpr(*fexpr)@),
    decreases fexpr,
{
    out.append("(fexpr! ");
    let ghost head = out@;
    match &fexpr.arg_list {
        ArgList::Args(list) => {
            out.push('(');
            print_names(out, list);
            out.push(')');
            assert(out@ =~= head + params_text(fexpr.arg_list@));
        },
        ArgList::Vargs(atom) => {
            print_atom(out, atom);
        },
    }
    out.push(' ');
    print_list(out, &fexpr.body);
    out.push(')');
    assert(out@ =~= old(out)@ + value_text(Value::Fexpr(*fexpr)@));
}

/// The character of a decimal digit.
pub open spec fn digit(d: nat) -> char {
    ((48 + d) as u8) as char
}

/// A number in decimal, without leading zeros.
pub open spec fn decimal(n: nat) -> Seq<char>
    decreases n,
{
    if n < 10 {
        seq![digit(n)]
    } else {
        decimal(n / 10).push(digit(n % 10))
    }
}

/// Appends a number in decimal to `out`.
pub fn print_decimal(out: &mut String, n: usize)
    ensures
        final(out)@ == old(out)@ + decimal(n as nat),
    decreases n,
{
    if n >= 10 {
        print_decimal(out, n / 10);
    }
    let d = (n % 10) as u8;
    out.push((48u8 + d) as char);
    assert(out@ =~= old(out)@ + decimal(n as nat));
}

} // verus!
