use crate::chars::{decode_all, decode_step, Chars, Decoded};
use crate::error::{Error, ErrorView};
use crate::source::{clamp, lemma_list_view, views};
use crate::source::{Atom, List, SourceInfo, SourceInfoView, SourceValueView, Value};
use std::rc::Rc;
use vstd::prelude::*;

verus! {

/// The characters that separate values: those with the Unicode property
/// White_Space.
pub open spec fn is_space(c: char) -> bool {
    let u = c as u32;
    ||| 0x09 <= u <= 0x0d
    ||| u == 0x20
    ||| u == 0x85
    ||| u == 0xa0
    ||| u == 0x1680
    ||| 0x2000 <= u <= 0x200a
    ||| u == 0x2028
    ||| u == 0x2029
    ||| u == 0x202f
    ||| u == 0x205f
    ||| u == 0x3000
}

/// Whether a character separates values.
pub fn is_whitespace(c: char) -> (res: bool)
    ensures
        res == is_space(c),
{
    let u = c as u32;
    (0x09 <= u && u <= 0x0d) || u == 0x20 || u == 0x85 || u == 0xa0 || u == 0x1680 || (0x2000 <= u
        && u <= 0x200a) || u == 0x2028 || u == 0x2029 || u == 0x202f || u == 0x205f || u == 0x3000
}

/// A reader's place in a decoded stream: the character under it, those
/// still to come, the failure that ends the stream if there is one, and the
/// position of the character under it.
pub ghost struct Cursor {
    pub current: Option<char>,
    pub upcoming: Seq<char>,
    pub failure: Option<Seq<u8>>,
    pub name: Seq<char>,
    pub lineno: nat,
    pub charno: nat,
}

/// The cursor before the first character of a stream.
pub open spec fn start_cursor(name: Seq<char>, decoded: Decoded) -> Cursor {
    Cursor {
        current: None,
        upcoming: decoded.chars,
        failure: decoded.failure,
        name,
        lineno: 1,
        charno: 0,
    }
}

/// How many characters a cursor can still give, the one under it included.
pub open spec fn measure(c: Cursor) -> nat {
    c.upcoming.len() + if c.current is Some {
        1nat
    } else {
        0nat
    }
}

/// The position of the character under the cursor, line and column as far
/// as `usize` can count.
pub open spec fn pos(c: Cursor) -> SourceInfoView {
    SourceInfoView { name: c.name, lineno: clamp(c.lineno), charno: clamp(c.charno) }
}

/// One step forward. A newline starts a line at column 0, any other
/// character moves one column on. At the end of the stream nothing is under
/// the cursor, unless the stream ends in a failure.
pub open spec fn advance(c: Cursor) -> Result<Cursor, ErrorView> {
    if c.upcoming.len() > 0 {
        let ch = c.upcoming[0];
        Ok(
            Cursor {
                current: Some(ch),
                upcoming: c.upcoming.drop_first(),
                lineno: if ch == '\n' {
                    c.lineno + 1
                } else {
                    c.lineno
                },
                charno: if ch == '\n' {
                    0
                } else {
                    c.charno + 1
                },
                ..c
            },
        )
    } else {
        match c.failure {
            Some(bytes) => Err(ErrorView::Utf8(bytes)),
            None => Ok(Cursor { current: None, ..c }),
        }
    }
}

/// A syntax error at the cursor.
pub open spec fn syntax_error(c: Cursor, msg: Seq<char>) -> ErrorView {
    ErrorView::Syntax { source_info: pos(c), msg }
}

/// Reads the rest of an atom's name. A backslash takes the character after
/// it as it is; whitespace, `)` and the end of the stream end the name.
pub open spec fn parse_name_spec(c: Cursor, name: Seq<char>) -> Result<(Seq<char>, Cursor), ErrorView>
    decreases measure(c),
{
    match c.current {
        None => Ok((name, c)),
        Some(ch) => {
            if ch == '\\' {
                match advance(c) {
                    Err(e) => Err(e),
                    Ok(c1) => match c1.current {
                        None => Err(syntax_error(c1, "Expect character after '\\'"@)),
                        Some(escaped) => match advance(c1) {
                            Err(e) => Err(e),
                            Ok(c2) => parse_name_spec(c2, name.push(escaped)),
                        },
                    },
                }
            } else if ch == '(' {
                Err(syntax_error(c, "Invalid character '('"@))
            } else if is_space(ch) || ch == ')' {
                Ok((name, c))
            } else {
                match advance(c) {
                    Err(e) => Err(e),
                    Ok(c1) => parse_name_spec(c1, name.push(ch)),
                }
            }
        },
    }
}

/// Reads an atom that starts under the cursor.
pub open spec fn parse_atom_spec(c: Cursor) -> Result<(SourceValueView, Cursor), ErrorView> {
    match parse_name_spec(c, Seq::empty()) {
        Err(e) => Err(e),
        Ok((name, c1)) => Ok((SourceValueView::Atom { name, info: pos(c) }, c1)),
    }
}

/// Skips whitespace and reads one value. There is none at the end of the
/// stream, and none at a `)` inside a list; a `)` outside a list is an error.
pub open spec fn parse_value_spec(c: Cursor, within_list: bool) -> Result<
    (Option<SourceValueView>, Cursor),
    ErrorView,
>
    decreases measure(c), 1nat,
{
    match c.current {
        None => Ok((None, c)),
        Some(ch) => {
            if is_space(ch) {
                match advance(c) {
                    Err(e) => Err(e),
                    Ok(c1) => parse_value_spec(c1, within_list),
                }
            } else if ch == '(' {
                match parse_list_spec(c) {
                    Err(e) => Err(e),
                    Ok((v, c1)) => Ok((Some(v), c1)),
                }
            } else if ch == ')' {
                if within_list {
                    Ok((None, c))
                } else {
                    Err(syntax_error(c, "Unexpected ')'"@))
                }
            } else {
                match parse_atom_spec(c) {
                    Err(e) => Err(e),
                    Ok((v, c1)) => Ok((Some(v), c1)),
                }
            }
        },
    }
}

/// Reads a list whose `(` is under the cursor.
pub open spec fn parse_list_spec(c: Cursor) -> Result<(SourceValueView, Cursor), ErrorView>
    decreases measure(c), 0nat,
{
    if c.current is Some {
        match advance(c) {
            Err(e) => Err(e),
            Ok(c1) => parse_items_spec(c1, Seq::empty(), pos(c)),
        }
    } else {
        Err(syntax_error(c, "Expecting ')' found EOF"@))
    }
}

/// Reads the children of a list up to its `)`, after those in `acc`. Each
/// child uses up at least one character ([`lemma_value_consumes`]), so the
/// test on the measure never fails.
pub open spec fn parse_items_spec(c: Cursor, acc: Seq<SourceValueView>, info: SourceInfoView) -> Result<
    (SourceValueView, Cursor),
    ErrorView,
>
    decreases measure(c), 2nat,
{
    match parse_value_spec(c, true) {
        Err(e) => Err(e),
        Ok((Some(v), c1)) => {
            if measure(c1) < measure(c) {
                parse_items_spec(c1, acc.push(v), info)
            } else {
                Ok((SourceValueView::List { items: acc.push(v), info }, c1))
            }
        },
        Ok((None, c1)) => {
            if c1.current is Some {
                match advance(c1) {
                    Err(e) => Err(e),
                    Ok(c2) => Ok((SourceValueView::List { items: acc, info }, c2)),
                }
            } else {
                Err(syntax_error(c1, "Expecting ')' found EOF"@))
            }
        },
    }
}

/// Reads the values of a program up to the end of the stream, after those
/// in `acc`.
pub open spec fn parse_program_spec(c: Cursor, acc: Seq<SourceValueView>) -> Result<
    Seq<SourceValueView>,
    ErrorView,
>
    decreases measure(c),
{
    match parse_value_spec(c, false) {
        Err(e) => Err(e),
        Ok((None, _)) => Ok(acc),
        Ok((Some(v), c1)) => {
            if measure(c1) < measure(c) {
                parse_program_spec(c1, acc.push(v))
            } else {
                Ok(acc.push(v))
            }
        },
    }
}

/// The program that a decoded stream holds, or the first error in it.
pub open spec fn parse_spec(name: Seq<char>, decoded: Decoded) -> Result<
    Seq<SourceValueView>,
    ErrorView,
> {
    match advance(start_cursor(name, decoded)) {
        Err(e) => Err(e),
        Ok(c) => {
            if c.current is None {
                Ok(Seq::empty())
            } else {
                parse_program_spec(c, Seq::empty())
            }
        },
    }
}

/// Reading a name never moves the cursor back, and moves it on where the
/// name starts with a character that can stand in one.
pub proof fn lemma_name_consumes(c: Cursor, name: Seq<char>)
    ensures
        parse_name_spec(c, name) matches Ok((_, c1)) ==> measure(c1) <= measure(c) && (c.current
            matches Some(ch) && !is_space(ch) && ch != ')' ==> measure(c1) < measure(c)),
    decreases measure(c),
{
    match c.current {
        None => {},
        Some(ch) => {
            if ch == '\\' {
                match advance(c) {
                    Err(_) => {},
                    Ok(c1) => match c1.current {
                        None => {},
                        Some(escaped) => match advance(c1) {
                            Err(_) => {},
                            Ok(c2) => {
                                lemma_name_consumes(c2, name.push(escaped));
                            },
                        },
                    },
                }
            } else if ch == '(' {
            } else if is_space(ch) || ch == ')' {
            } else {
                match advance(c) {
                    Err(_) => {},
                    Ok(c1) => {
                        lemma_name_consumes(c1, name.push(ch));
                    },
                }
            }
        },
    }
}

/// Reading a value never moves the cursor back, and a value that was read
/// used up at least one character.
pub proof fn lemma_value_consumes(c: Cursor, within_list: bool)
    ensures
        parse_value_spec(c, within_list) matches Ok((v, c1)) ==> measure(c1) <= measure(c) && (v
            is Some ==> measure(c1) < measure(c)),
    decreases measure(c), 1nat,
{
    match c.current {
        None => {},
        Some(ch) => {
            if is_space(ch) {
                match advance(c) {
                    Err(_) => {},
                    Ok(c1) => {
                        lemma_value_consumes(c1, within_list);
                    },
                }
            } else if ch == '(' {
                lemma_list_consumes(c);
            } else if ch == ')' {
            } else {
                lemma_name_consumes(c, Seq::empty());
            }
        },
    }
}

/// Reading a list uses up at least its `(`.
pub proof fn lemma_list_consumes(c: Cursor)
    ensures
        parse_list_spec(c) matches Ok((_, c1)) ==> measure(c1) < measure(c),
    decreases measure(c), 0nat,
{
    if c.current is Some {
        match advance(c) {
            Err(_) => {},
            Ok(c1) => {
                lemma_items_consumes(c1, Seq::empty(), pos(c));
            },
        }
    }
}

/// Reading the children of a list never moves the cursor back.
pub proof fn lemma_items_consumes(c: Cursor, acc: Seq<SourceValueView>, info: SourceInfoView)
    ensures
        parse_items_spec(c, acc, info) matches Ok((_, c1)) ==> measure(c1) <= measure(c),
    decreases measure(c), 2nat,
{
    lemma_value_consumes(c, true);
    match parse_value_spec(c, true) {
        Err(_) => {},
        Ok((Some(v), c1)) => {
            lemma_items_consumes(c1, acc.push(v), info);
        },
        Ok((None, c1)) => {},
    }
}

/// A character source: the decoder, the character last read from it and that
/// character's position.
struct Source<'a> {
    name: String,
    lineno: usize,
    charno: usize,
    stream: Chars<'a>,
    current: Option<char>,
    line: Ghost<nat>,
    column: Ghost<nat>,
}

impl<'a> Source<'a> {
    spec fn cursor(&self) -> Cursor {
        Cursor {
            current: self.current,
            upcoming: decode_all(self.stream.remaining()).chars,
            failure: decode_all(self.stream.remaining()).failure,
            name: self.name@,
            lineno: self.line@,
            charno: self.column@,
        }
    }

    /// The counters hold line and column as far as `usize` can count.
    spec fn wf(&self) -> bool {
        &&& self.lineno == clamp(self.line@)
        &&& self.charno == clamp(self.column@)
    }

    fn new(name: &str, stream: Chars<'a>) -> (res: Self)
        ensures
            res.cursor() == start_cursor(name@, decode_all(stream.remaining())),
            res.wf(),
    {
        Source {
            name: name.to_owned(),
            lineno: 1,
            charno: 0,
            stream,
            current: None,
            line: Ghost(1),
            column: Ghost(0),
        }
    }

    fn next(&mut self) -> (res: Result<Option<char>, Error>)
        requires
            old(self).wf(),
        ensures
            match advance(old(self).cursor()) {
                Ok(c) => res == Ok::<Option<char>, Error>(c.current) && final(self).cursor() == c
                    && final(self).wf(),
                Err(e) => res matches Err(x) && x@ == e,
            },
    {
        let ghost before = self.cursor();
        let rst = self.stream.next();
        let c = match rst {
            Some(Ok(c)) => c,
            Some(Err(e)) => {
                return Err(e);
            },
            None => {
                self.current = None;
                assert(decode_step(Seq::<u8>::empty()) is End);
                return Ok(None);
            },
        };
        assert(before.upcoming.drop_first() =~= decode_all(self.stream.remaining()).chars);
        if c == '\n' {
            if self.lineno < usize::MAX {
                self.lineno = self.lineno + 1;
            }
            self.charno = 0;
            self.line = Ghost((self.line@ + 1) as nat);
            self.column = Ghost(0);
        } else {
            if self.charno < usize::MAX {
                self.charno = self.charno + 1;
            }
            self.column = Ghost((self.column@ + 1) as nat);
        }
        self.current = Some(c);
        Ok(self.current)
    }

    fn current(&self) -> (res: Option<char>)
        ensures
            res == self.cursor().current,
    {
        self.current
    }

    fn current_pos(&self) -> (res: SourceInfo)
        requires
            self.wf(),
        ensures
            res@ == pos(self.cursor()),
    {
        SourceInfo { name: self.name.clone(), lineno: self.lineno, charno: self.charno }
    }
}

fn syntax_err(source: &Source, msg: String) -> (res: Error)
    requires
        source.wf(),
    ensures
        res@ == syntax_error(source.cursor(), msg@),
{
    let source_info = source.current_pos();
    Error::Syntax { source_info, msg }
}

fn parse_atom(source: &mut Source) -> (res: Result<Atom, Error>)
    requires
        old(source).wf(),
    ensures
        match parse_atom_spec(old(source).cursor()) {
            Ok((v, c)) => res matches Ok(a) && Value::Atom(a)@ == v && final(source).cursor() == c
                && final(source).wf() && measure(c) <= measure(old(source).cursor()) && (old(
                source,
            ).cursor().current matches Some(ch) && !is_space(ch) && ch != ')' ==> measure(c)
                < measure(old(source).cursor())),
            Err(e) => res matches Err(x) && x@ == e,
        },
{
    let mut name = String::new();
    let source_info = source.current_pos();
    let ghost start = source.cursor();
    loop
        invariant
            source.wf(),
            measure(source.cursor()) <= measure(start),
            parse_name_spec(start, Seq::empty()) == parse_name_spec(source.cursor(), name@),
            name@.len() == 0 ==> source.cursor() == start,
            name@.len() > 0 ==> measure(source.cursor()) < measure(start),
            source_info@ == pos(start),
            start == old(source).cursor(),
        ensures
            source.cursor().current matches Some(ch) ==> is_space(ch) || ch == ')',
        decreases measure(source.cursor()),
    {
        let c = match source.current() {
            None => {
                break ;
            },
            Some(c) => c,
        };
        let c = if c == '\\' {
            match source.next() {
                Err(e) => {
                    return Err(e);
                },
                Ok(_) => {},
            }
            match source.current() {
                None => {
                    return Err(syntax_err(source, "Expect character after '\\'".to_owned()));
                },
                Some(escaped) => escaped,
            }
        } else if c == '(' {
            return Err(syntax_err(source, "Invalid character '('".to_owned()));
        } else if is_whitespace(c) || c == ')' {
            break ;
        } else {
            c
        };
        name.push(c);
        match source.next() {
            Err(e) => {
                return Err(e);
            },
            Ok(_) => {},
        }
    }
    Ok(Atom { name, source_info })
}

fn parse_value(source: &mut Source, within_list: bool) -> (res: Result<Option<Value>, Error>)
    requires
        old(source).wf(),
    ensures
        match parse_value_spec(old(source).cursor(), within_list) {
            Ok((v, c)) => final(source).cursor() == c && final(source).wf() && measure(c)
                <= measure(old(source).cursor()) && match v {
                Some(m) => res matches Ok(Some(r)) && r@ == m && measure(c) < measure(
                    old(source).cursor(),
                ),
                None => res matches Ok(None),
            },
            Err(e) => res matches Err(x) && x@ == e,
        },
    decreases measure(old(source).cursor()), 1nat,
{
    let ghost start = source.cursor();
    loop
        invariant
            source.wf(),
            measure(source.cursor()) <= measure(start),
            parse_value_spec(start, within_list) == parse_value_spec(source.cursor(), within_list),
            start == old(source).cursor(),
        ensures
            source.cursor().current matches Some(ch) && !is_space(ch),
        decreases measure(source.cursor()),
    {
        let cur = match source.current() {
            Some(c) => c,
            None => {
                return Ok(None);
            },
        };
        if !is_whitespace(cur) {
            break ;
        }
        match source.next() {
            Err(e) => {
                return Err(e);
            },
            Ok(_) => {},
        }
    }
    match source.current() {
        Some('(') => {
            match parse_list(source) {
                Ok(l) => Ok(Some(Value::List(l))),
                Err(e) => Err(e),
            }
        },
        Some(')') => {
            if within_list {
                Ok(None)
            } else {
                Err(syntax_err(source, "Unexpected ')'".to_owned()))
            }
        },
        _ => {
            match parse_atom(source) {
                Ok(a) => Ok(Some(Value::Atom(a))),
                Err(e) => Err(e),
            }
        },
    }
}

fn parse_list(source: &mut Source) -> (res: Result<List, Error>)
    requires
        old(source).wf(),
        old(source).cursor().current is Some,
    ensures
        match parse_list_spec(old(source).cursor()) {
            Ok((v, c)) => res matches Ok(l) && Value::List(l)@ == v && final(source).cursor() == c
                && final(source).wf() && measure(c) < measure(old(source).cursor()),
            Err(e) => res matches Err(x) && x@ == e,
        },
    decreases measure(old(source).cursor()), 0nat,
{
    let source_info = source.current_pos();
    match source.next() {
        Err(e) => {
            return Err(e);
        },
        Ok(_) => {},
    }
    let mut buf: Vec<Value> = Vec::new();
    assert(views(buf@) =~= Seq::empty());
    loop
        invariant
            source.wf(),
            measure(source.cursor()) < measure(old(source).cursor()),
            parse_list_spec(old(source).cursor()) == parse_items_spec(
                source.cursor(),
                views(buf@),
                source_info@,
            ),
        decreases measure(source.cursor()),
    {
        let ghost items = views(buf@);
        match parse_value(source, true) {
            Err(e) => {
                return Err(e);
            },
            Ok(Some(v)) => {
                buf.push(v);
                assert(views(buf@) =~= items.push(v@));
            },
            Ok(None) => {
                match source.current() {
                    None => {
                        return Err(syntax_err(source, "Expecting ')' found EOF".to_owned()));
                    },
                    Some(_) => {
                        match source.next() {
                            Err(e) => {
                                return Err(e);
                            },
                            Ok(_) => {},
                        }
                        let list = List { list: Rc::new(buf), source_info };
                        proof {
                            lemma_list_view(&list);
                        }
                        return Ok(list);
                    },
                }
            },
        }
    }
}

/// Reads a program from a character stream. `name` is recorded in every
/// position.
pub fn parse(name: &str, stream: Chars) -> (res: Result<Vec<Value>, Error>)
    ensures
        match parse_spec(name@, decode_all(stream.remaining())) {
            Ok(program) => res matches Ok(r) && views(r@) == program,
            Err(e) => res matches Err(x) && x@ == e,
        },
{
    let mut source = Source::new(name, stream);
    let mut result: Vec<Value> = Vec::new();
    assert(views(result@) =~= Seq::empty());
    match source.next() {
        Err(e) => {
            return Err(e);
        },
        Ok(None) => {
            return Ok(result);
        },
        Ok(Some(_)) => {},
    }
    loop
        invariant
            source.wf(),
            parse_spec(name@, decode_all(stream.remaining())) == parse_program_spec(
                source.cursor(),
                views(result@),
            ),
        decreases measure(source.cursor()),
    {
        let ghost items = views(result@);
        match parse_value(&mut source, false) {
            Err(e) => {
                return Err(e);
            },
            Ok(Some(v)) => {
                result.push(v);
                assert(views(result@) =~= items.push(v@));
            },
            Ok(None) => {
                return Ok(result);
            },
        }
    }
}

} // verus!
