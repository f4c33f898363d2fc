use crate::source::{SourceInfo, SourceInfoView};
use crate::printer::{decimal, print, print_decimal, value_text};
use crate::value::{Atom, Value, ValueView};
use vstd::prelude::*;
use vstd::string::StringExecFns;

verus! {

/// What can go wrong while decoding, parsing or evaluating.
#[derive(Debug)]
pub enum Error {
    /// The byte source failed, with the reader's account of it. Nothing in
    /// this library reads, so nothing in it gives this error: it is for the
    /// caller that does.
    Io(String),
    /// Bytes that are not UTF-8: the sequence read so far, padded with zeros.
    Utf8([u8; 4]),
    Syntax { source_info: SourceInfo, msg: String },
    NoUpCtx { source_info: SourceInfo },
    CantEval { source_info: SourceInfo, val: Value },
    CantCall { source_info: SourceInfo, val: Value },
    BadArgsNum { source_info: SourceInfo, expected: usize, found: usize },
    BadFuncArgs { source_info: SourceInfo, msg: String },
    AssertError { source_info: SourceInfo, msg: String },
    Redefinition { source_info: SourceInfo, key: Atom, old_val: Value, new_val: Value },
    /// Calls were nested deeper than the evaluator's bound.
    DepthExceeded { source_info: SourceInfo },
}

/// Mathematical model of an [`Error`].
pub ghost enum ErrorView {
    Io(Seq<char>),
    Utf8(Seq<u8>),
    Syntax { source_info: SourceInfoView, msg: Seq<char> },
    NoUpCtx { source_info: SourceInfoView },
    CantEval { source_info: SourceInfoView, val: ValueView },
    CantCall { source_info: SourceInfoView, val: ValueView },
    BadArgsNum { source_info: SourceInfoView, expected: usize, found: usize },
    BadFuncArgs { source_info: SourceInfoView, msg: Seq<char> },
    AssertError { source_info: SourceInfoView, msg: Seq<char> },
    Redefinition { source_info: SourceInfoView, key: Seq<char>, old_val: ValueView, new_val: ValueView },
    DepthExceeded { source_info: SourceInfoView },
}

impl View for Error {
    type V = ErrorView;

    open spec fn view(&self) -> ErrorView {
        match self {
            Error::Io(msg) => ErrorView::Io(msg@),
            Error::Utf8(bytes) => ErrorView::Utf8(bytes@),
            Error::Syntax { source_info, msg } => ErrorView::Syntax {
                source_info: source_info@,
                msg: msg@,
            },
            Error::NoUpCtx { source_info } => ErrorView::NoUpCtx { source_info: source_info@ },
            Error::CantEval { source_info, val } => ErrorView::CantEval {
                source_info: source_info@,
                val: val@,
            },
            Error::CantCall { source_info, val } => ErrorView::CantCall {
                source_info: source_info@,
                val: val@,
            },
            Error::BadArgsNum { source_info, expected, found } => ErrorView::BadArgsNum {
                source_info: source_info@,
                expected: *expected,
                found: *found,
            },
            Error::BadFuncArgs { source_info, msg } => ErrorView::BadFuncArgs {
                source_info: source_info@,
                msg: msg@,
            },
            Error::AssertError { source_info, msg } => ErrorView::AssertError {
                source_info: source_info@,
                msg: msg@,
            },
            Error::Redefinition { source_info, key, old_val, new_val } => ErrorView::Redefinition {
                source_info: source_info@,
                key: key@,
                old_val: old_val@,
                new_val: new_val@,
            },
            Error::DepthExceeded { source_info } => ErrorView::DepthExceeded {
                source_info: source_info@,
            },
        }
    }
}

/// The model of what an evaluation gives: a value or an error.
pub open spec fn result_view(r: Result<Value, Error>) -> Result<ValueView, ErrorView> {
    match r {
        Ok(v) => Ok(v@),
        Err(e) => Err(e@),
    }
}

/// The error of a primitive that was given the wrong arguments.
pub open spec fn bad_args_spec(source_info: SourceInfoView, msg: Seq<char>) -> ErrorView {
    ErrorView::BadFuncArgs { source_info, msg }
}

/// The error of a primitive that was given the wrong arguments.
pub fn bad_args(source_info: &SourceInfo, msg: String) -> (res: Error)
    ensures
        res@ == bad_args_spec(source_info@, msg@),
{
    Error::BadFuncArgs { source_info: source_info.clone(), msg }
}

/// The text of a position: name, line and column, with colons between.
pub open spec fn info_text(i: SourceInfoView) -> Seq<char> {
    i.name + seq![':'] + decimal(i.lineno as nat) + seq![':'] + decimal(i.charno as nat)
}

/// A message followed, on a line of its own, by the position it is about.
pub open spec fn located(msg: Seq<char>, i: SourceInfoView) -> Seq<char> {
    msg + "\n\tAt "@ + info_text(i)
}

/// Four bytes as a bracketed list of decimal numbers.
pub open spec fn bytes_text(bytes: Seq<u8>) -> Seq<char> {
    seq!['['] + decimal(bytes[0] as nat) + ", "@ + decimal(bytes[1] as nat) + ", "@ + decimal(
        bytes[2] as nat,
    ) + ", "@ + decimal(bytes[3] as nat) + seq![']']
}

/// The message of an error, as it is shown to a user.
pub open spec fn error_text(e: ErrorView) -> Seq<char> {
    match e {
        ErrorView::Io(msg) => "Io Error: "@ + msg,
        ErrorView::Utf8(bytes) => "Invalid bytes as UTF-8: "@ + bytes_text(bytes),
        ErrorView::Syntax { source_info, msg } => located("Syntax error: "@ + msg, source_info),
        ErrorView::NoUpCtx { source_info } => located("Can't go upwards"@, source_info),
        ErrorView::CantEval { source_info, val } => located(
            "Can't eval value: "@ + value_text(val),
            source_info,
        ),
        ErrorView::CantCall { source_info, val } => located(
            "Can't call value: "@ + value_text(val),
            source_info,
        ),
        ErrorView::BadArgsNum { source_info, expected, found } => located(
            "Bad number of arguments, expected "@ + decimal(expected as nat) + ", found "@
                + decimal(found as nat),
            source_info,
        ),
        ErrorView::BadFuncArgs { source_info, msg } => located(
            "Bad arguments: "@ + msg,
            source_info,
        ),
        ErrorView::AssertError { source_info, msg } => located(
            "Assert failed with: "@ + msg,
            source_info,
        ),
        ErrorView::Redefinition { source_info, key, old_val, new_val } => located(
            "Can't redefine "@ + key + " from "@ + value_text(old_val) + " to "@ + value_text(
                new_val,
            ),
            source_info,
        ),
        ErrorView::DepthExceeded { source_info } => located(
            "Calls are nested too deeply"@,
            source_info,
        ),
    }
}

impl SourceInfo {
    /// Appends the text of the position to `out`.
    pub fn write(&self, out: &mut String)
        ensures
            final(out)@ == old(out)@ + info_text(self@),
    {
        out.append(self.name.as_str());
        out.push(':');
        print_decimal(out, self.lineno);
        out.push(':');
        print_decimal(out, self.charno);
        assert(out@ =~= old(out)@ + info_text(self@));
    }

    /// The text of the position.
    pub fn to_string(&self) -> (res: String)
        ensures
            res@ == info_text(self@),
    {
        let mut out = String::new();
        self.write(&mut out);
        assert(out@ =~= info_text(self@));
        out
    }
}

fn finish(mut msg: String, source_info: &SourceInfo) -> (res: String)
    ensures
        res@ == located(msg@, source_info@),
{
    msg.append("\n\tAt ");
    source_info.write(&mut msg);
    msg
}

impl Error {
    /// The message of the error, as it is shown to a user.
    pub fn to_string(&self) -> (res: String)
        ensures
            res@ == error_text(self@),
    {
        match self {
            Error::Io(msg) => {
                let mut text = "Io Error: ".to_owned();
                text.append(msg.as_str());
                text
            },
            Error::Utf8(bytes) => {
                let mut msg = "Invalid bytes as UTF-8: ".to_owned();
                msg.push('[');
                print_decimal(&mut msg, bytes[0] as usize);
                msg.append(", ");
                print_decimal(&mut msg, bytes[1] as usize);
                msg.append(", ");
                print_decimal(&mut msg, bytes[2] as usize);
                msg.append(", ");
                print_decimal(&mut msg, bytes[3] as usize);
                msg.push(']');
                assert(msg@ =~= error_text(self@));
                msg
            },
            Error::Syntax { source_info, msg } => {
                let mut text = "Syntax error: ".to_owned();
                text.append(msg.as_str());
                finish(text, source_info)
            },
            Error::NoUpCtx { source_info } => finish("Can't go upwards".to_owned(), source_info),
            Error::CantEval { source_info, val } => {
                let mut text = "Can't eval value: ".to_owned();
                print(&mut text, val);
                finish(text, source_info)
            },
            Error::CantCall { source_info, val } => {
                let mut text = "Can't call value: ".to_owned();
                print(&mut text, val);
                finish(text, source_info)
            },
            Error::BadArgsNum { source_info, expected, found } => {
                let mut text = "Bad number of arguments, expected ".to_owned();
                print_decimal(&mut text, *expected);
                text.append(", found ");
                print_decimal(&mut text, *found);
                finish(text, source_info)
            },
            Error::BadFuncArgs { source_info, msg } => {
                let mut text = "Bad arguments: ".to_owned();
                text.append(msg.as_str());
                finish(text, source_info)
            },
            Error::AssertError { source_info, msg } => {
                let mut text = "Assert failed with: ".to_owned();
                text.append(msg.as_str());
                finish(text, source_info)
            },
            Error::Redefinition { source_info, key, old_val, new_val } => {
                let mut text = "Can't redefine ".to_owned();
                text.append(key.name.as_str());
                text.append(" from ");
                print(&mut text, old_val);
                text.append(" to ");
                print(&mut text, new_val);
                finish(text, source_info)
            },
            Error::DepthExceeded { source_info } => finish(
                "Calls are nested too deeply".to_owned(),
                source_info,
            ),
        }
    }
}

} // verus!
