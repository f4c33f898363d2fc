pub mod chars;
pub mod env;
pub mod error;
pub mod eval;
pub mod list;
pub mod parser;
pub mod primitives;
pub mod printer;
pub mod round_trip;
pub mod source;
pub mod trusted;
pub mod value;

use crate::chars::{decode, decode_all, lemma_decode_encoded, Chars, Decoded};
use crate::error::{result_view, Error, ErrorView};
use crate::eval::eval_source_spec;
use crate::parser::{is_space, is_whitespace, parse_spec};
use crate::printer::value_text;
use crate::source::views;
use vstd::prelude::*;
use vstd::string::StringExecFns;
use vstd::string::StringSliceAdditionalSpecFns;

verus! {

/// Reads a program from UTF-8 bytes. `name` is recorded in every position.
pub fn parse(name: &str, bytes: &[u8]) -> (res: Result<Vec<source::Value>, Error>)
    ensures
        match parse_spec(name@, decode_all(bytes@)) {
            Ok(program) => res matches Ok(r) && views(r@) == program,
            Err(e) => res matches Err(x) && x@ == e,
        },
{
    parser::parse(name, Chars::new(bytes))
}

/// A text without the whitespace at its start.
pub open spec fn trim_start(s: Seq<char>) -> Seq<char>
    decreases s.len(),
{
    if s.len() > 0 && is_space(s[0]) {
        trim_start(s.drop_first())
    } else {
        s
    }
}

/// A text without the whitespace at its end.
pub open spec fn trim_end(s: Seq<char>) -> Seq<char>
    decreases s.len(),
{
    if s.len() > 0 && is_space(s.last()) {
        trim_end(s.drop_last())
    } else {
        s
    }
}

/// The first ten characters of a text, or all of it if it is shorter.
pub open spec fn first_ten(s: Seq<char>) -> Seq<char> {
    if s.len() <= 10 {
        s
    } else {
        s.take(10)
    }
}

/// The source name under which a text is parsed: the start of the text,
/// without the whitespace around it, between fixed marks.
pub open spec fn str_label(s: Seq<char>) -> Seq<char> {
    "str:`"@ + first_ten(trim_end(trim_start(s))) + "...'"@
}

/// The source name under which a text is parsed.
pub fn label(chars: &Vec<char>) -> (res: String)
    ensures
        res@ == str_label(chars@),
{
    let n = chars.len();
    let mut from: usize = 0;
    assert(chars@.skip(0) =~= chars@);
    while from < n && is_whitespace(chars[from])
        invariant
            from <= n,
            n == chars@.len(),
            trim_start(chars@) == trim_start(chars@.skip(from as int)),
        decreases n - from,
    {
        assert(chars@.skip(from as int).drop_first() =~= chars@.skip(from + 1));
        from = from + 1;
    }
    let ghost tail = chars@.skip(from as int);
    assert(trim_start(chars@) == tail);
    let mut to: usize = n;
    assert(chars@.subrange(from as int, to as int) =~= tail);
    while to > from && is_whitespace(chars[to - 1])
        invariant
            from <= to <= n,
            n == chars@.len(),
            trim_end(tail) == trim_end(chars@.subrange(from as int, to as int)),
        decreases to,
    {
        assert(chars@.subrange(from as int, to as int).drop_last() =~= chars@.subrange(
            from as int,
            to - 1,
        ));
        to = to - 1;
    }
    let ghost core = chars@.subrange(from as int, to as int);
    assert(trim_end(tail) == core);
    if to - from > 10 {
        to = from + 10;
    }
    assert(chars@.subrange(from as int, to as int) =~= first_ten(core));
    let mut name = "str:`".to_owned();
    let mut i: usize = from;
    assert(chars@.subrange(from as int, from as int) =~= Seq::empty());
    while i < to
        invariant
            from <= i <= to <= n,
            n == chars@.len(),
            name@ == "str:`"@ + chars@.subrange(from as int, i as int),
        decreases to - i,
    {
        name.push(chars[i]);
        assert(chars@.subrange(from as int, i + 1) =~= chars@.subrange(from as int, i as int).push(
            chars@[i as int],
        ));
        i = i + 1;
    }
    name.append("...'");
    name
}

/// Reads a program from a text, under a source name made from the start of
/// the text.
pub fn parse_str(s: &str) -> (res: Result<Vec<source::Value>, Error>)
    ensures
        match parse_spec(str_label(s@), Decoded { chars: s@, failure: None }) {
            Ok(program) => res matches Ok(r) && views(r@) == program,
            Err(e) => res matches Err(x) && x@ == e,
        },
{
    let bytes = s.as_bytes();
    proof {
        lemma_decode_encoded(s@);
    }
    let decoded = decode(bytes);
    let name = label(&decoded.0);
    parser::parse(name.as_str(), Chars::new(bytes))
}

/// Appends the canonical text of a value to `out`.
pub fn print(out: &mut String, val: &value::Value)
    ensures
        final(out)@ == old(out)@ + value_text(val@),
{
    printer::print(out, val)
}

/// Appends the canonical text of a value and a newline to `out`.
pub fn println(out: &mut String, val: &value::Value)
    ensures
        final(out)@ == old(out)@ + value_text(val@) + seq!['\n'],
{
    printer::print(out, val);
    out.push('\n');
    assert(out@ =~= old(out)@ + value_text(val@) + seq!['\n']);
}

/// Evaluates a program in a new root frame. What it prints goes to the end
/// of `out`; the result is that of its last form, or the empty list if it
/// has none. Calls may nest [`eval::MAX_DEPTH`] deep, which is 1024: a call
/// beyond that fails with [`Error::DepthExceeded`], at the position of that
/// call, and ends the evaluation as every other error does.
pub fn eval_source(src: &[source::Value], out: &mut String) -> (res: Result<value::Value, Error>)
    ensures
        final(out)@ == eval_source_spec(views(src@), old(out)@).machine.out,
        result_view(res) == eval_source_spec(views(src@), old(out)@).result,
{
    eval::eval_source(src, out)
}

} // verus!
