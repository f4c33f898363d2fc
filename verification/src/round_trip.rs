use crate::chars::Decoded;
use crate::error::ErrorView;
use crate::parser::{advance, is_space, measure, pos, start_cursor};
use crate::parser::{parse_items_spec, parse_name_spec, parse_program_spec, parse_spec};
use crate::parser::{parse_atom_spec, parse_list_spec, parse_value_spec, Cursor};
use crate::printer::{gap, source_items_text, source_text};
use crate::source::{SourceInfoView, SourceValueView};
use vstd::prelude::*;

verus! {

/// A character that can stand in an atom's name as it is.
pub open spec fn plain(ch: char) -> bool {
    !is_space(ch) && ch != '(' && ch != ')' && ch != '\\'
}

/// A name that reads back as one atom: not empty, and of plain characters.
pub open spec fn plain_name(s: Seq<char>) -> bool {
    s.len() > 0 && forall|i: int| 0 <= i < s.len() ==> plain(#[trigger] s[i])
}

/// A value whose text reads back as that value: all its atoms have plain
/// names.
pub open spec fn printable(v: SourceValueView) -> bool
    decreases v,
{
    match v {
        SourceValueView::Atom { name, .. } => plain_name(name),
        SourceValueView::List { items, .. } => forall|i: int|
            0 <= i < items.len() ==> printable(#[trigger] items[i]),
    }
}

/// Whether every value of a row is printable.
pub open spec fn all_printable(items: Seq<SourceValueView>) -> bool {
    forall|i: int| 0 <= i < items.len() ==> printable(#[trigger] items[i])
}

/// The position that stands for "no position".
pub open spec fn blank() -> SourceInfoView {
    SourceInfoView { name: Seq::empty(), lineno: 0, charno: 0 }
}

/// A value without its positions.
pub open spec fn shape(v: SourceValueView) -> SourceValueView
    decreases v,
{
    match v {
        SourceValueView::Atom { name, .. } => SourceValueView::Atom { name, info: blank() },
        SourceValueView::List { items, .. } => SourceValueView::List {
            items: Seq::new(
                items.len(),
                |i: int|
                    if 0 <= i < items.len() {
                        shape(items[i])
                    } else {
                        arbitrary()
                    },
            ),
            info: blank(),
        },
    }
}

/// The values of a row without their positions.
pub open spec fn shapes(items: Seq<SourceValueView>) -> Seq<SourceValueView> {
    Seq::new(items.len(), |i: int| shape(items[i]))
}

/// The text of a program: the text of each form, each followed by a
/// newline.
pub open spec fn program_text(program: Seq<SourceValueView>) -> Seq<char>
    decreases program.len(),
{
    if program.len() == 0 {
        Seq::empty()
    } else {
        source_text(program[0]) + seq!['\n'] + program_text(program.drop_first())
    }
}

/// The cursor on the first character of `chars`, in a stream that ends
/// without a failure.
pub open spec fn at(chars: Seq<char>, name: Seq<char>, line: nat, column: nat) -> Cursor {
    Cursor {
        current: if chars.len() > 0 {
            Some(chars[0])
        } else {
            None
        },
        upcoming: if chars.len() > 0 {
            chars.drop_first()
        } else {
            Seq::empty()
        },
        failure: None,
        name,
        lineno: line,
        charno: column,
    }
}

/// The line of the second character of `chars`, `line` being that of the
/// first.
pub open spec fn next_line(chars: Seq<char>, line: nat) -> nat {
    if chars.len() >= 2 && chars[1] == '\n' {
        line + 1
    } else {
        line
    }
}

/// The column of the second character of `chars`, `column` being that of
/// the first.
pub open spec fn next_column(chars: Seq<char>, column: nat) -> nat {
    if chars.len() >= 2 {
        if chars[1] == '\n' {
            0
        } else {
            column + 1
        }
    } else {
        column
    }
}

/// What may follow an atom: the end, whitespace or `)`.
pub open spec fn delimited(tail: Seq<char>) -> bool {
    tail.len() == 0 || is_space(tail[0]) || tail[0] == ')'
}

/// One step from the first character of a text leads to the second.
pub proof fn lemma_advance(chars: Seq<char>, name: Seq<char>, line: nat, column: nat)
    requires
        chars.len() > 0,
    ensures
        advance(at(chars, name, line, column)) == Ok::<Cursor, ErrorView>(
            at(chars.drop_first(), name, next_line(chars, line), next_column(chars, column)),
        ),
        measure(at(chars, name, line, column)) == chars.len(),
        measure(at(chars.drop_first(), name, next_line(chars, line), next_column(chars, column)))
            == chars.len() - 1,
{
    let rest = chars.drop_first();
    let next = at(rest, name, next_line(chars, line), next_column(chars, column));
    let got = advance(at(chars, name, line, column));
    if rest.len() > 0 {
        assert(rest[0] == chars[1]);
        assert(got->Ok_0.upcoming =~= next.upcoming);
    } else {
        assert(got->Ok_0.upcoming =~= next.upcoming);
    }
}

/// A list without its positions holds its children without theirs.
pub proof fn lemma_shape_list(items: Seq<SourceValueView>, info: SourceInfoView)
    ensures
        shape(SourceValueView::List { items, info }) == (SourceValueView::List {
            items: shapes(items),
            info: blank(),
        }),
{
    assert(shape(SourceValueView::List { items, info })->List_items =~= shapes(items));
}

/// The text of a printable value is not empty.
pub proof fn lemma_text_nonempty(v: SourceValueView)
    requires
        printable(v),
    ensures
        source_text(v).len() > 0,
{
}

/// Plain characters before a delimiter are read as the rest of a name.
pub proof fn lemma_name(
    s: Seq<char>,
    tail: Seq<char>,
    acc: Seq<char>,
    name: Seq<char>,
    line: nat,
    column: nat,
) -> (r: (nat, nat))
    requires
        forall|i: int| 0 <= i < s.len() ==> plain(#[trigger] s[i]),
        delimited(tail),
    ensures
        parse_name_spec(at(s + tail, name, line, column), acc) == Ok::<
            (Seq<char>, Cursor),
            ErrorView,
        >((acc + s, at(tail, name, r.0, r.1))),
    decreases s.len(),
{
    let text = s + tail;
    if s.len() == 0 {
        assert(text =~= tail);
        assert(acc + s =~= acc);
        (line, column)
    } else {
        assert(text[0] == s[0]);
        assert(plain(s[0]));
        lemma_advance(text, name, line, column);
        assert(text.drop_first() =~= s.drop_first() + tail);
        let rest = s.drop_first();
        assert forall|i: int| 0 <= i < rest.len() implies plain(#[trigger] rest[i]) by {
            assert(rest[i] == s[i + 1]);
        }
        let r = lemma_name(
            rest,
            tail,
            acc.push(s[0]),
            name,
            next_line(text, line),
            next_column(text, column),
        );
        assert(acc.push(s[0]) + rest =~= acc + s);
        r
    }
}

/// Whitespace before a value is passed over.
pub proof fn lemma_skip_space(
    text: Seq<char>,
    name: Seq<char>,
    line: nat,
    column: nat,
    within_list: bool,
)
    requires
        text.len() > 0,
        is_space(text[0]),
    ensures
        parse_value_spec(at(text, name, line, column), within_list) == parse_value_spec(
            at(text.drop_first(), name, next_line(text, line), next_column(text, column)),
            within_list,
        ),
{
    lemma_advance(text, name, line, column);
}

/// At a `(` a value is the list of the children that follow.
pub proof fn lemma_open(text: Seq<char>, name: Seq<char>, line: nat, column: nat, within_list: bool)
    requires
        text.len() > 0,
        text[0] == '(',
    ensures
        parse_value_spec(at(text, name, line, column), within_list) == match parse_items_spec(
            at(text.drop_first(), name, next_line(text, line), next_column(text, column)),
            Seq::empty(),
            pos(at(text, name, line, column)),
        ) {
            Err(e) => Err::<(Option<SourceValueView>, Cursor), ErrorView>(e),
            Ok((v, c)) => Ok((Some(v), c)),
        },
{
    lemma_advance(text, name, line, column);
    let c0 = at(text, name, line, column);
    assert(!is_space('('));
    assert(parse_list_spec(c0) == parse_items_spec(
        at(text.drop_first(), name, next_line(text, line), next_column(text, column)),
        Seq::empty(),
        pos(c0),
    ));
}

/// At the `)` of a list its children are complete.
pub proof fn lemma_close(
    text: Seq<char>,
    name: Seq<char>,
    line: nat,
    column: nat,
    acc: Seq<SourceValueView>,
    info: SourceInfoView,
)
    requires
        text.len() > 0,
        text[0] == ')',
    ensures
        parse_items_spec(at(text, name, line, column), acc, info) == Ok::<
            (SourceValueView, Cursor),
            ErrorView,
        >(
            (
                SourceValueView::List { items: acc, info },
                at(text.drop_first(), name, next_line(text, line), next_column(text, column)),
            ),
        ),
{
    lemma_advance(text, name, line, column);
    let c0 = at(text, name, line, column);
    assert(!is_space(')'));
    assert(parse_value_spec(c0, true) == Ok::<(Option<SourceValueView>, Cursor), ErrorView>(
        (None, c0),
    ));
}

/// After a child the rest of the children are read.
pub proof fn lemma_child(
    c0: Cursor,
    p: SourceValueView,
    c1: Cursor,
    acc: Seq<SourceValueView>,
    info: SourceInfoView,
)
    requires
        parse_value_spec(c0, true) == Ok::<(Option<SourceValueView>, Cursor), ErrorView>(
            (Some(p), c1),
        ),
        measure(c1) < measure(c0),
    ensures
        parse_items_spec(c0, acc, info) == parse_items_spec(c1, acc.push(p), info),
{
}

/// After a form the rest of the forms are read.
pub proof fn lemma_form(c0: Cursor, p: SourceValueView, c1: Cursor, acc: Seq<SourceValueView>)
    requires
        parse_value_spec(c0, false) == Ok::<(Option<SourceValueView>, Cursor), ErrorView>(
            (Some(p), c1),
        ),
        measure(c1) < measure(c0),
    ensures
        parse_program_spec(c0, acc) == parse_program_spec(c1, acc.push(p)),
{
}

/// The text of a printable atom before a delimiter is read as that atom.
pub proof fn lemma_atom(
    s: Seq<char>,
    tail: Seq<char>,
    name: Seq<char>,
    line: nat,
    column: nat,
    within_list: bool,
) -> (r: (nat, nat))
    requires
        plain_name(s),
        delimited(tail),
    ensures
        parse_value_spec(at(s + tail, name, line, column), within_list) == Ok::<
            (Option<SourceValueView>, Cursor),
            ErrorView,
        >(
            (
                Some(
                    SourceValueView::Atom {
                        name: s,
                        info: pos(at(s + tail, name, line, column)),
                    },
                ),
                at(tail, name, r.0, r.1),
            ),
        ),
{
    let text = s + tail;
    assert(text[0] == s[0]);
    assert(plain(s[0]));
    let r = lemma_name(s, tail, Seq::empty(), name, line, column);
    assert(Seq::<char>::empty() + s =~= s);
    r
}

/// The text of a printable value, before a delimiter where it is an atom,
/// is read as that value but for positions, and the reader then stands at
/// what follows.
#[verifier::rlimit(40)]
pub proof fn lemma_value(
    v: SourceValueView,
    tail: Seq<char>,
    name: Seq<char>,
    line: nat,
    column: nat,
    within_list: bool,
) -> (r: (nat, nat))
    requires
        printable(v),
        v is Atom ==> delimited(tail),
    ensures
        parse_value_spec(at(source_text(v) + tail, name, line, column), within_list) matches Ok(
            (Some(p), c),
        ) && shape(p) == shape(v) && c == at(tail, name, r.0, r.1),
    decreases v,
{
    let text = source_text(v) + tail;
    match v {
        SourceValueView::Atom { name: s, .. } => lemma_atom(
            s,
            tail,
            name,
            line,
            column,
            within_list,
        ),
        SourceValueView::List { items, info } => {
            let inner = source_items_text(items, true) + seq![')'] + tail;
            assert(text =~= seq!['('] + inner);
            assert(text.drop_first() =~= inner);
            lemma_open(text, name, line, column, within_list);
            let r = lemma_items(
                items,
                true,
                tail,
                name,
                next_line(text, line),
                next_column(text, column),
                Seq::empty(),
                pos(at(text, name, line, column)),
            );
            let got = parse_value_spec(at(text, name, line, column), within_list)->Ok_0.0->Some_0;
            lemma_shape_list(items, info);
            lemma_shape_list(got->List_items, got->List_info);
            assert(shapes(Seq::<SourceValueView>::empty()) + shapes(items) =~= shapes(items));
            r
        },
    }
}

/// The text of a row of children that is not empty: what separates the
/// first from what came before, the text of the first, and the text of the
/// rest, which begins with a delimiter.
pub proof fn lemma_row_text(items: Seq<SourceValueView>, first: bool, tail: Seq<char>)
    requires
        all_printable(items),
        items.len() > 0,
    ensures
        source_items_text(items, first) + seq![')'] + tail == gap(first) + (source_text(items[0])
            + (source_items_text(items.drop_first(), false) + seq![')'] + tail)),
        delimited(source_items_text(items.drop_first(), false) + seq![')'] + tail),
        printable(items[0]),
        all_printable(items.drop_first()),
        source_text(items[0]).len() > 0,
{
    let rest = items.drop_first();
    let after = source_items_text(rest, false) + seq![')'] + tail;
    assert(source_items_text(items, first) + seq![')'] + tail =~= gap(first) + (source_text(
        items[0],
    ) + after));
    assert forall|i: int| 0 <= i < rest.len() implies printable(#[trigger] rest[i]) by {
        assert(rest[i] == items[i + 1]);
    }
    lemma_text_nonempty(items[0]);
    if rest.len() == 0 {
        assert(after =~= seq![')'] + tail);
        assert(after[0] == ')');
    } else {
        assert(after[0] == ' ');
    }
}

/// What separates two children is passed over.
pub proof fn lemma_gap(
    body: Seq<char>,
    first: bool,
    name: Seq<char>,
    line: nat,
    column: nat,
    within_list: bool,
) -> (r: (nat, nat))
    ensures
        parse_value_spec(at(gap(first) + body, name, line, column), within_list)
            == parse_value_spec(at(body, name, r.0, r.1), within_list),
        measure(at(gap(first) + body, name, line, column)) >= body.len(),
{
    let text = gap(first) + body;
    lemma_measure(text, name, line, column);
    if first {
        assert(text =~= body);
        (line, column)
    } else {
        assert(text[0] == ' ');
        assert(text.drop_first() =~= body);
        lemma_skip_space(text, name, line, column, within_list);
        (next_line(text, line), next_column(text, column))
    }
}

/// A child read in place of the first of a row has the shape of that one.
pub proof fn lemma_shapes_push(
    acc: Seq<SourceValueView>,
    p: SourceValueView,
    items: Seq<SourceValueView>,
)
    requires
        items.len() > 0,
        shape(p) == shape(items[0]),
    ensures
        shapes(acc.push(p)) + shapes(items.drop_first()) == shapes(acc) + shapes(items),
{
    assert(shapes(acc.push(p)) + shapes(items.drop_first()) =~= shapes(acc) + shapes(items));
}

/// The text of printable children up to the `)` of their list is read as
/// those children but for positions, and the reader then stands behind the
/// `)`.
#[verifier::rlimit(40)]
pub proof fn lemma_items(
    items: Seq<SourceValueView>,
    first: bool,
    tail: Seq<char>,
    name: Seq<char>,
    line: nat,
    column: nat,
    acc: Seq<SourceValueView>,
    info: SourceInfoView,
) -> (r: (nat, nat))
    requires
        all_printable(items),
    ensures
        parse_items_spec(
            at(source_items_text(items, first) + seq![')'] + tail, name, line, column),
            acc,
            info,
        ) matches Ok((SourceValueView::List { items: got, info: at_list }, c)) && at_list == info
            && shapes(got) == shapes(acc) + shapes(items) && c == at(tail, name, r.0, r.1),
    decreases items,
{
    let text = source_items_text(items, first) + seq![')'] + tail;
    if items.len() == 0 {
        assert(text =~= seq![')'] + tail);
        assert(text.drop_first() =~= tail);
        lemma_close(text, name, line, column, acc, info);
        assert(shapes(acc) + shapes(items) =~= shapes(acc));
        (next_line(text, line), next_column(text, column))
    } else {
        let v = items[0];
        let rest = items.drop_first();
        let after = source_items_text(rest, false) + seq![')'] + tail;
        let body = source_text(v) + after;
        lemma_row_text(items, first, tail);
        let c0 = at(gap(first) + body, name, line, column);
        let start = lemma_gap(body, first, name, line, column, true);
        let r1 = lemma_value(v, after, name, start.0, start.1, true);
        let p = parse_value_spec(c0, true)->Ok_0.0->Some_0;
        let c2 = at(after, name, r1.0, r1.1);
        lemma_measure(after, name, r1.0, r1.1);
        lemma_child(c0, p, c2, acc, info);
        let r = lemma_items(rest, false, tail, name, r1.0, r1.1, acc.push(p), info);
        lemma_shapes_push(acc, p, items);
        r
    }
}

/// A cursor can still give as many characters as the text under it has.
pub proof fn lemma_measure(chars: Seq<char>, name: Seq<char>, line: nat, column: nat)
    ensures
        measure(at(chars, name, line, column)) == chars.len(),
{
}

/// The text of printable forms, after a newline where `lead` says so, is
/// read as those forms but for positions.
#[verifier::rlimit(40)]
pub proof fn lemma_forms(
    program: Seq<SourceValueView>,
    lead: bool,
    name: Seq<char>,
    line: nat,
    column: nat,
    acc: Seq<SourceValueView>,
)
    requires
        all_printable(program),
    ensures
        parse_program_spec(
            at(
                if lead {
                    seq!['\n'] + program_text(program)
                } else {
                    program_text(program)
                },
                name,
                line,
                column,
            ),
            acc,
        ) matches Ok(got) && shapes(got) == shapes(acc) + shapes(program),
    decreases program.len(),
{
    let body = program_text(program);
    let text = if lead {
        seq!['\n'] + body
    } else {
        body
    };
    let c0 = at(text, name, line, column);
    let (l1, k1) = if lead {
        assert(text[0] == '\n');
        assert(text.drop_first() =~= body);
        lemma_skip_space(text, name, line, column, false);
        (next_line(text, line), next_column(text, column))
    } else {
        (line, column)
    };
    let c1 = at(body, name, l1, k1);
    assert(parse_value_spec(c0, false) == parse_value_spec(c1, false));
    if program.len() == 0 {
        assert(shapes(acc) + shapes(program) =~= shapes(acc));
    } else {
        let v = program[0];
        let rest = program.drop_first();
        let after = seq!['\n'] + program_text(rest);
        assert(body =~= source_text(v) + after);
        assert(printable(v));
        assert forall|i: int| 0 <= i < rest.len() implies printable(#[trigger] rest[i]) by {
            assert(rest[i] == program[i + 1]);
        }
        lemma_text_nonempty(v);
        assert(after[0] == '\n');
        let r1 = lemma_value(v, after, name, l1, k1, false);
        let p = parse_value_spec(c1, false)->Ok_0.0->Some_0;
        lemma_measure(after, name, r1.0, r1.1);
        lemma_measure(text, name, line, column);
        lemma_form(c0, p, at(after, name, r1.0, r1.1), acc);
        lemma_forms(rest, true, name, r1.0, r1.1, acc.push(p));
        assert(shapes(acc.push(p)) + shapes(rest) =~= shapes(acc) + shapes(program));
    }
}

/// Reading the text of a program gives that program back but for
/// positions, provided its atoms have names that are not empty and hold
/// neither whitespace nor parentheses nor backslashes. (Other names print as
/// texts that read back as something else.)
pub proof fn lemma_program_round_trip(name: Seq<char>, program: Seq<SourceValueView>)
    requires
        all_printable(program),
    ensures
        parse_spec(name, Decoded { chars: program_text(program), failure: None }) matches Ok(again)
            && shapes(again) == shapes(program),
{
    let text = program_text(program);
    let start = start_cursor(name, Decoded { chars: text, failure: None });
    if program.len() == 0 {
        assert(shapes(Seq::<SourceValueView>::empty()) =~= shapes(program));
    } else {
        lemma_text_nonempty(program[0]);
        let line: nat = if text[0] == '\n' {
            2
        } else {
            1
        };
        let column: nat = if text[0] == '\n' {
            0
        } else {
            1
        };
        let c = at(text, name, line, column);
        assert(advance(start) == Ok::<Cursor, ErrorView>(c));
        lemma_forms(program, false, name, line, column, Seq::empty());
        assert(shapes(Seq::<SourceValueView>::empty()) + shapes(program) =~= shapes(program));
    }
}

/// A text that is not empty and holds neither whitespace nor parentheses
/// nor backslashes is read as one atom of that name, at line 1 and column 1,
/// and that atom prints as the text.
pub proof fn lemma_atom_round_trip(name: Seq<char>, text: Seq<char>)
    requires
        plain_name(text),
    ensures
        parse_spec(name, Decoded { chars: text, failure: None }) == Ok::<
            Seq<SourceValueView>,
            ErrorView,
        >(
            seq![
                SourceValueView::Atom {
                    name: text,
                    info: SourceInfoView { name, lineno: 1, charno: 1 },
                },
            ],
        ),
        source_text(
            SourceValueView::Atom { name: text, info: SourceInfoView { name, lineno: 1, charno: 1 } },
        ) == text,
{
    let start = start_cursor(name, Decoded { chars: text, failure: None });
    let c = at(text, name, 1, 1);
    assert(plain(text[0]));
    assert(advance(start) == Ok::<Cursor, ErrorView>(c));
    let r = lemma_name(text, Seq::empty(), Seq::empty(), name, 1, 1);
    assert(text + Seq::<char>::empty() =~= text);
    assert(Seq::<char>::empty() + text =~= text);
    let atom = SourceValueView::Atom { name: text, info: pos(c) };
    let end = at(Seq::empty(), name, r.0, r.1);
    assert(parse_atom_spec(c) == Ok::<(SourceValueView, Cursor), ErrorView>((atom, end)));
    assert(parse_value_spec(c, false) == Ok::<(Option<SourceValueView>, Cursor), ErrorView>(
        (Some(atom), end),
    ));
    assert(parse_value_spec(end, false) == Ok::<(Option<SourceValueView>, Cursor), ErrorView>(
        (None, end),
    ));
    assert(measure(end) < measure(c));
    assert(parse_program_spec(end, seq![atom]) == Ok::<Seq<SourceValueView>, ErrorView>(
        seq![atom],
    ));
    assert(Seq::<SourceValueView>::empty().push(atom) =~= seq![atom]);
}

} // verus!
