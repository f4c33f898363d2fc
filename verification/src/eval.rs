use crate::env::{define, define_spec, define_weak, define_weak_spec, empty_frame, lookup};
use crate::env::{lookup_spec, root_frame, upeval_target};
use crate::env::{Context, FrameView};
use crate::error::{bad_args, bad_args_spec, result_view};
use crate::error::{Error, ErrorView};
use crate::list::{car, cdr, cons, has_odd_length, list_len};
use crate::source::clamp;
use crate::list::{ListIter, ListRef};
use crate::primitives::{all_atoms, all_fexprs, all_lists, atom_concat_spec, atom_eq_spec};
use crate::primitives::{bump, number_message, numbered, quote_message, quoted};
use crate::primitives::{car_spec, cdr_spec, cons_spec, fexpr_spec, quote_spec, truth_value};
use crate::printer::{print, value_text};
use crate::source::{SourceInfo, SourceInfoView, SourceValueView};
use crate::value::{atom_names, empty_list, from_source, from_source_items, true_value};
use crate::value::{ArgList, ArgListView, Atom, Fexpr, Function, List, Value, ValueView};
use vstd::pervasive::unreached;
use vstd::prelude::*;

verus! {

/// How deep calls may nest. A call of a fexpr or a primitive inside that
/// many calls fails with [`Error::DepthExceeded`].
pub const MAX_DEPTH: usize = 1024;

/// What evaluation reads and changes: the chain of frames, the current one
/// first, and the text printed so far.
pub ghost struct Machine {
    pub frames: Seq<FrameView>,
    pub out: Seq<char>,
}

/// The machine after a step, and what the step gave.
pub ghost struct Outcome<T> {
    pub machine: Machine,
    pub result: Result<T, ErrorView>,
}

/// A step that gives `v` and changes nothing.
pub open spec fn done(m: Machine, v: ValueView) -> Outcome<ValueView> {
    Outcome { machine: m, result: Ok(v) }
}

/// A step that fails with `e` and changes nothing.
pub open spec fn fail<T>(m: Machine, e: ErrorView) -> Outcome<T> {
    Outcome { machine: m, result: Err(e) }
}

/// A step that changes nothing and gives what `r` says.
pub open spec fn pure(m: Machine, r: Result<ValueView, ErrorView>) -> Outcome<ValueView> {
    Outcome { machine: m, result: r }
}

/// The machine with another current frame.
pub open spec fn with_top(m: Machine, frame: FrameView) -> Machine {
    Machine { frames: m.frames.update(0, frame), ..m }
}

/// The machine inside a new frame whose parent is frame number `parent`.
pub open spec fn enter(m: Machine, frame: FrameView, parent: int) -> Machine {
    Machine { frames: seq![frame] + m.frames.skip(parent), ..m }
}

/// Back in the frames of `m` after the steps of `inner` in a frame of their
/// own: the frame is gone, the text stays.
pub open spec fn leave<T>(m: Machine, inner: Outcome<T>) -> Outcome<T> {
    Outcome { machine: Machine { out: inner.machine.out, ..m }, result: inner.result }
}

/// Whether an operator gets its arguments evaluated.
pub open spec fn pre_evaluates(f: Function) -> bool {
    match f {
        Function::Puts
        | Function::Eval
        | Function::UpEval
        | Function::Define
        | Function::AtomConcat
        | Function::AtomEq
        | Function::IsAtom
        | Function::IsList
        | Function::IsFexpr
        | Function::List
        | Function::Fexpr
        | Function::Car
        | Function::Cdr
        | Function::Cons => true,
        _ => false,
    }
}

/// The one argument of an operator that takes exactly one.
pub open spec fn single_arg_spec(
    args: Seq<ValueView>,
    source_info: SourceInfoView,
    none: Seq<char>,
    many: Seq<char>,
) -> Result<ValueView, ErrorView> {
    if args.len() == 0 {
        Err(bad_args_spec(source_info, none))
    } else if args.len() > 1 {
        Err(bad_args_spec(source_info, many))
    } else {
        Ok(args[0])
    }
}

/// The texts of values in a row, nothing between them.
pub open spec fn row_text(args: Seq<ValueView>) -> Seq<char>
    decreases args.len(),
{
    if args.len() == 0 {
        Seq::empty()
    } else {
        value_text(args[0]) + row_text(args.drop_first())
    }
}

/// `puts`: prints its arguments in a row and a newline, and gives the empty
/// list.
pub open spec fn puts_spec(args: Seq<ValueView>, m: Machine) -> Outcome<ValueView> {
    done(Machine { out: m.out + row_text(args) + seq!['\n'], ..m }, empty_list())
}

/// The canonical true value for the empty list, the empty list for
/// everything else.
pub open spec fn not_value(v: ValueView) -> ValueView {
    truth_value(!v.is_truthy())
}

/// `define`: binds the atom that is its first argument strongly to its
/// second, in `frame`.
pub open spec fn define_prim_spec(
    args: Seq<ValueView>,
    frame: FrameView,
    source_info: SourceInfoView,
) -> Result<FrameView, ErrorView> {
    if args.len() == 0 {
        Err(bad_args_spec(source_info, "define: must have two arguments"@))
    } else {
        match args[0].atom_name() {
            None => Err(
                bad_args_spec(
                    source_info,
                    quoted("define: the first argument `"@, args[0], "' is not an atom"@),
                ),
            ),
            Some(key) => {
                if args.len() == 1 {
                    Err(bad_args_spec(source_info, "define: must have a second argument"@))
                } else if args.len() > 2 {
                    Err(bad_args_spec(source_info, "define: must have only two arguments"@))
                } else {
                    define_spec(frame, key, args[1], source_info)
                }
            },
        }
    }
}

/// Positional binding: each name weakly to the argument at its place, as
/// far as both rows go.
pub open spec fn bind_each(names: Seq<Seq<char>>, args: Seq<ValueView>, frame: FrameView) -> FrameView
    decreases names.len(),
{
    if names.len() == 0 || args.len() == 0 {
        frame
    } else {
        bind_each(
            names.drop_first(),
            args.drop_first(),
            define_weak_spec(frame, names[0], args[0]),
        )
    }
}

/// Binds the parameters of a fexpr to unevaluated arguments, weakly, in
/// `frame`: one name to the whole list, or each name to its argument, in
/// which case the numbers must agree. Lengths are counted as far as `usize`
/// can count.
pub open spec fn bind_params_spec(
    params: ArgListView,
    args: Seq<ValueView>,
    frame: FrameView,
    source_info: SourceInfoView,
) -> Result<FrameView, ErrorView> {
    match params {
        ArgListView::Vargs(name) => Ok(define_weak_spec(frame, name, ValueView::List(args))),
        ArgListView::Args(names) => {
            if clamp(names.len()) != clamp(args.len()) {
                Err(
                    ErrorView::BadArgsNum {
                        source_info,
                        expected: clamp(names.len()),
                        found: clamp(args.len()),
                    },
                )
            } else {
                Ok(bind_each(names, args, frame))
            }
        },
    }
}

/// Evaluates `v` in the current frame, `depth` calls deep at most. An atom
/// is looked up, a list is a call, and nothing else can be evaluated.
/// Errors in a list with a position carry that position, others
/// `source_info`.
pub open spec fn eval_spec(
    depth: nat,
    v: ValueView,
    m: Machine,
    source_info: SourceInfoView,
) -> Outcome<ValueView>
    decreases depth, 1nat, 0nat,
{
    match v {
        ValueView::Atom(name) => done(m, lookup_spec(m.frames, name)),
        ValueView::SourceAtom { name, .. } => done(m, lookup_spec(m.frames, name)),
        ValueView::List(items) => call_spec(depth, items, m, source_info),
        ValueView::SourceList { items, info } => call_spec(
            depth,
            from_source_items(items),
            m,
            info,
        ),
        _ => fail(m, ErrorView::CantEval { source_info, val: v }),
    }
}

/// What the head of a call stands for: an atom is looked up, anything else
/// is taken as it is.
pub open spec fn callee_spec(head: ValueView, frames: Seq<FrameView>) -> ValueView {
    match head.atom_name() {
        Some(name) => lookup_spec(frames, name),
        None => head,
    }
}

/// A call. The empty list gives itself. Otherwise the head must stand for a
/// fexpr or a primitive, which gets the rest of the list; this uses up one
/// level of `depth`.
pub open spec fn call_spec(
    depth: nat,
    items: Seq<ValueView>,
    m: Machine,
    source_info: SourceInfoView,
) -> Outcome<ValueView>
    decreases depth, 0nat, 0nat,
{
    if items.len() == 0 {
        done(m, empty_list())
    } else {
        let callee = callee_spec(items[0], m.frames);
        match callee {
            ValueView::Fexpr { params, body } => {
                if depth == 0 {
                    fail(m, ErrorView::DepthExceeded { source_info })
                } else {
                    call_fexpr_spec(
                        (depth - 1) as nat,
                        params,
                        body,
                        items.drop_first(),
                        m,
                        source_info,
                    )
                }
            },
            ValueView::Function(f) => {
                if depth == 0 {
                    fail(m, ErrorView::DepthExceeded { source_info })
                } else {
                    call_function_spec((depth - 1) as nat, f, items.drop_first(), m, source_info)
                }
            },
            _ => fail(m, ErrorView::CantCall { source_info, val: callee }),
        }
    }
}

/// A fexpr call: a new frame below the current one, the parameters bound to
/// the unevaluated arguments, the body evaluated in it.
pub open spec fn call_fexpr_spec(
    depth: nat,
    params: ArgListView,
    body: Seq<ValueView>,
    args: Seq<ValueView>,
    m: Machine,
    source_info: SourceInfoView,
) -> Outcome<ValueView>
    decreases depth, 5nat, 0nat,
{
    match bind_params_spec(params, args, empty_frame(false), source_info) {
        Err(e) => fail(m, e),
        Ok(frame) => leave(
            m,
            eval_body_spec(depth, body, enter(m, frame, 0), source_info, empty_list()),
        ),
    }
}

/// Evaluates values in turn and gives what the last one gave, or `last` if
/// there is none.
pub open spec fn eval_body_spec(
    depth: nat,
    items: Seq<ValueView>,
    m: Machine,
    source_info: SourceInfoView,
    last: ValueView,
) -> Outcome<ValueView>
    decreases depth, 2nat, items.len(),
{
    if items.len() == 0 {
        done(m, last)
    } else {
        let first = eval_spec(depth, items[0], m, source_info);
        match first.result {
            Err(_) => first,
            Ok(v) => eval_body_spec(depth, items.drop_first(), first.machine, source_info, v),
        }
    }
}

/// Evaluates arguments from left to right and gives their values in order.
pub open spec fn eval_args_spec(
    depth: nat,
    args: Seq<ValueView>,
    m: Machine,
    source_info: SourceInfoView,
) -> Outcome<Seq<ValueView>>
    decreases depth, 2nat, args.len(),
{
    if args.len() == 0 {
        Outcome { machine: m, result: Ok(Seq::empty()) }
    } else {
        let first = eval_spec(depth, args[0], m, source_info);
        match first.result {
            Err(e) => fail(first.machine, e),
            Ok(v) => {
                let rest = eval_args_spec(depth, args.drop_first(), first.machine, source_info);
                match rest.result {
                    Err(e) => fail(rest.machine, e),
                    Ok(vs) => Outcome { machine: rest.machine, result: Ok(seq![v] + vs) },
                }
            },
        }
    }
}

/// A primitive call: the arguments are evaluated first if the operator
/// wants them so.
pub open spec fn call_function_spec(
    depth: nat,
    f: Function,
    args: Seq<ValueView>,
    m: Machine,
    source_info: SourceInfoView,
) -> Outcome<ValueView>
    decreases depth, 5nat, 0nat,
{
    if pre_evaluates(f) {
        let evaluated = eval_args_spec(depth, args, m, source_info);
        match evaluated.result {
            Err(e) => fail(evaluated.machine, e),
            Ok(vals) => apply_spec(depth, f, vals, evaluated.machine, source_info),
        }
    } else {
        apply_spec(depth, f, args, m, source_info)
    }
}

/// What a primitive does with its arguments.
pub open spec fn apply_spec(
    depth: nat,
    f: Function,
    args: Seq<ValueView>,
    m: Machine,
    source_info: SourceInfoView,
) -> Outcome<ValueView>
    decreases depth, 4nat, 0nat,
{
    match f {
        Function::Puts | Function::PutsF => puts_spec(args, m),
        Function::Cond => cond_spec(depth, args, m, source_info),
        Function::Not => not_spec(depth, args, m, source_info),
        Function::Assert => assert_spec(depth, args, 0, m, source_info),
        Function::Eval | Function::EvalF => eval_prim_spec(depth, args, m, source_info),
        Function::UpEval | Function::UpEvalF => upeval_spec(depth, args, m, source_info),
        Function::Define | Function::DefineF => match define_prim_spec(
            args,
            m.frames[0],
            source_info,
        ) {
            Err(e) => fail(m, e),
            Ok(frame) => done(with_top(m, frame), empty_list()),
        },
        Function::AtomConcat | Function::AtomConcatF => pure(
            m,
            atom_concat_spec(args, source_info),
        ),
        Function::AtomEq | Function::AtomEqF => pure(m, atom_eq_spec(args, source_info)),
        Function::IsAtom | Function::IsAtomF => done(m, truth_value(all_atoms(args))),
        Function::IsList | Function::IsListF => done(m, truth_value(all_lists(args))),
        Function::IsFexpr | Function::IsFexprF => done(m, truth_value(all_fexprs(args))),
        Function::BeginF => begin_spec(depth, args, m, source_info),
        Function::QuoteF => pure(m, quote_spec(args, source_info)),
        Function::List => done(m, ValueView::List(args)),
        Function::Fexpr | Function::FexprF => pure(m, fexpr_spec(args, source_info)),
        Function::Car | Function::CarF => pure(m, car_spec(args, source_info)),
        Function::Cdr | Function::CdrF => pure(m, cdr_spec(args, source_info)),
        Function::Cons | Function::ConsF => pure(m, cons_spec(args, source_info)),
    }
}

/// `cond`: pairs of a test and an expression. An odd number of arguments
/// is an error, before anything is evaluated. Otherwise the tests are
/// evaluated in turn; the expression of the first that counts as true is
/// evaluated and given, and nothing after it is. Without such a test the
/// empty list is given.
pub open spec fn cond_spec(
    depth: nat,
    args: Seq<ValueView>,
    m: Machine,
    source_info: SourceInfoView,
) -> Outcome<ValueView>
    decreases depth, 3nat, 0nat,
{
    if args.len() % 2 == 1 {
        fail(m, bad_args_spec(source_info, "cond: must have an even number of arguments"@))
    } else {
        cond_pairs_spec(depth, args, m, source_info)
    }
}

/// `cond` on pairs of a test and an expression.
pub open spec fn cond_pairs_spec(
    depth: nat,
    pairs: Seq<ValueView>,
    m: Machine,
    source_info: SourceInfoView,
) -> Outcome<ValueView>
    decreases depth, 2nat, pairs.len(),
{
    if pairs.len() < 2 {
        done(m, empty_list())
    } else {
        let test = eval_spec(depth, pairs[0], m, source_info);
        match test.result {
            Err(_) => test,
            Ok(v) => {
                if v.is_truthy() {
                    eval_spec(depth, pairs[1], test.machine, source_info)
                } else {
                    cond_pairs_spec(depth, pairs.skip(2), test.machine, source_info)
                }
            },
        }
    }
}

/// `not`: evaluates its one argument and gives the canonical true value if
/// that is the empty list, the empty list otherwise.
pub open spec fn not_spec(
    depth: nat,
    args: Seq<ValueView>,
    m: Machine,
    source_info: SourceInfoView,
) -> Outcome<ValueView>
    decreases depth, 3nat, 0nat,
{
    match single_arg_spec(
        args,
        source_info,
        "not: must have an argument"@,
        "not: must have only one argument"@,
    ) {
        Err(e) => fail(m, e),
        Ok(arg) => {
            let inner = eval_spec(depth, arg, m, source_info);
            match inner.result {
                Err(_) => inner,
                Ok(v) => done(inner.machine, not_value(v)),
            }
        },
    }
}

/// `assert` from argument number `idx + 1` on: evaluates the arguments in
/// turn and fails at the first that gives the empty list, naming its number
/// and its text.
pub open spec fn assert_spec(
    depth: nat,
    rest: Seq<ValueView>,
    idx: usize,
    m: Machine,
    source_info: SourceInfoView,
) -> Outcome<ValueView>
    decreases depth, 2nat, rest.len(),
{
    if rest.len() == 0 {
        done(m, empty_list())
    } else {
        let first = eval_spec(depth, rest[0], m, source_info);
        match first.result {
            Err(_) => first,
            Ok(v) => {
                if v.is_truthy() {
                    assert_spec(
                        depth,
                        rest.drop_first(),
                        clamp((idx + 1) as nat),
                        first.machine,
                        source_info,
                    )
                } else {
                    fail(
                        first.machine,
                        ErrorView::AssertError {
                            source_info,
                            msg: numbered(
                                "argument #"@,
                                clamp((idx + 1) as nat),
                                " `"@,
                                rest[0],
                                "' eval to an empty list"@,
                            ),
                        },
                    )
                }
            },
        }
    }
}

/// `eval`: evaluates its one argument in a new frame below the current one.
pub open spec fn eval_prim_spec(
    depth: nat,
    args: Seq<ValueView>,
    m: Machine,
    source_info: SourceInfoView,
) -> Outcome<ValueView>
    decreases depth, 3nat, 0nat,
{
    match single_arg_spec(
        args,
        source_info,
        "eval: must have an argument"@,
        "eval: must have only one argument"@,
    ) {
        Err(e) => fail(m, e),
        Ok(arg) => leave(m, eval_spec(depth, arg, enter(m, empty_frame(false), 0), source_info)),
    }
}

/// `upeval`: evaluates its one argument in a new frame, marked as made by
/// `upeval`, below the parent of the nearest frame that `upeval` did not
/// make. Without such a parent it fails.
pub open spec fn upeval_spec(
    depth: nat,
    args: Seq<ValueView>,
    m: Machine,
    source_info: SourceInfoView,
) -> Outcome<ValueView>
    decreases depth, 3nat, 0nat,
{
    match single_arg_spec(
        args,
        source_info,
        "upeval: must have an argument"@,
        "upeval: must have only one argument"@,
    ) {
        Err(e) => fail(m, e),
        Ok(arg) => match upeval_target(m.frames) {
            None => fail(m, ErrorView::NoUpCtx { source_info }),
            Some(parent) => leave(
                m,
                eval_spec(depth, arg, enter(m, empty_frame(true), parent), source_info),
            ),
        },
    }
}

/// `begin!`: evaluates its arguments in turn in a new frame below the
/// current one and gives what the last one gave.
pub open spec fn begin_spec(
    depth: nat,
    args: Seq<ValueView>,
    m: Machine,
    source_info: SourceInfoView,
) -> Outcome<ValueView>
    decreases depth, 3nat, 0nat,
{
    leave(
        m,
        eval_body_spec(depth, args, enter(m, empty_frame(false), 0), source_info, empty_list()),
    )
}

/// Evaluates the forms of a program in turn, each with its own position,
/// and gives what the last one gave, or `last` if there is none.
pub open spec fn program_spec(
    depth: nat,
    forms: Seq<SourceValueView>,
    m: Machine,
    last: ValueView,
) -> Outcome<ValueView>
    decreases forms.len(),
{
    if forms.len() == 0 {
        done(m, last)
    } else {
        let first = eval_spec(depth, from_source(forms[0]), m, forms[0].info());
        match first.result {
            Err(_) => first,
            Ok(v) => program_spec(depth, forms.drop_first(), first.machine, v),
        }
    }
}

/// Whether frames, printed text and result are those of an outcome.
pub open spec fn realizes(
    o: Outcome<ValueView>,
    frames: Seq<FrameView>,
    out: Seq<char>,
    res: Result<Value, Error>,
) -> bool {
    &&& frames == o.machine.frames
    &&& out == o.machine.out
    &&& result_view(res) == o.result
}

/// The machine of a chain of frames and the text printed so far.
pub open spec fn machine(frames: Seq<FrameView>, out: Seq<char>) -> Machine {
    Machine { frames, out }
}

impl Function {
    /// Whether the operator gets its arguments evaluated.
    pub fn pre_evaluates(&self) -> (res: bool)
        ensures
            res == pre_evaluates(*self),
    {
        match self {
            Function::Puts
            | Function::Eval
            | Function::UpEval
            | Function::Define
            | Function::AtomConcat
            | Function::AtomEq
            | Function::IsAtom
            | Function::IsList
            | Function::IsFexpr
            | Function::List
            | Function::Fexpr
            | Function::Car
            | Function::Cdr
            | Function::Cons => true,
            _ => false,
        }
    }
}

/// The one argument of an operator that takes exactly one.
pub fn single_arg<'a>(args: &'a List, source_info: &SourceInfo, none: &str, many: &str) -> (res:
    Result<&'a Value, Error>)
    ensures
        match single_arg_spec(args@, source_info@, none@, many@) {
            Ok(v) => res matches Ok(r) && r@ == v,
            Err(e) => res matches Err(x) && x@ == e,
        },
{
    let mut it = ListIter::new(args);
    let val = match it.next() {
        Some(v) => v,
        None => {
            return Err(bad_args(source_info, none.to_owned()));
        },
    };
    if it.next().is_some() {
        return Err(bad_args(source_info, many.to_owned()));
    }
    Ok(val)
}

/// Evaluates `val` in `ctx`, at most `depth` calls deep; what `puts` prints
/// goes to the end of `out`.
pub fn eval(
    val: &Value,
    ctx: &mut Context,
    source_info: &SourceInfo,
    depth: usize,
    out: &mut String,
) -> (res: Result<Value, Error>)
    ensures
        realizes(
            eval_spec(depth as nat, val@, machine(old(ctx).frames(), old(out)@), source_info@),
            final(ctx).frames(),
            final(out)@,
            res,
        ),
    decreases depth, 1nat, 0nat,
{
    match val {
        Value::Atom(atom) => lookup(atom, ctx, source_info),
        Value::List(list) => call(ListRef::Value(list), ctx, source_info, depth, out),
        Value::SourceAtom(atom) => lookup(&Atom::from_source(atom), ctx, source_info),
        Value::SourceList(list) => call(
            ListRef::Source(list),
            ctx,
            &list.source_info,
            depth,
            out,
        ),
        _ => Err(Error::CantEval { source_info: source_info.clone(), val: val.clone() }),
    }
}

/// Calls what the head of `list` stands for with the rest of `list`.
pub fn call(
    list: ListRef,
    ctx: &mut Context,
    source_info: &SourceInfo,
    depth: usize,
    out: &mut String,
) -> (res: Result<Value, Error>)
    ensures
        realizes(
            call_spec(depth as nat, list@, machine(old(ctx).frames(), old(out)@), source_info@),
            final(ctx).frames(),
            final(out)@,
            res,
        ),
    decreases depth, 0nat, 0nat,
{
    let callable = match car(list) {
        Some(v) => v,
        None => {
            return Ok(Value::empty_list());
        },
    };
    let callable = match &callable {
        Value::Atom(atom) => match lookup(atom, ctx, source_info) {
            Ok(v) => v,
            Err(e) => {
                return Err(e);
            },
        },
        Value::SourceAtom(atom) => match lookup(&Atom::from_source(atom), ctx, source_info) {
            Ok(v) => v,
            Err(e) => {
                return Err(e);
            },
        },
        _ => callable,
    };
    let args = match cdr(list) {
        Some(l) => l,
        None => List::Empty,
    };
    match &callable {
        Value::Fexpr(fexpr) => {
            if depth == 0 {
                return Err(Error::DepthExceeded { source_info: source_info.clone() });
            }
            call_fexpr(fexpr, &args, ctx, source_info, depth - 1, out)
        },
        Value::Function(func) => {
            if depth == 0 {
                return Err(Error::DepthExceeded { source_info: source_info.clone() });
            }
            call_function(func, &args, ctx, source_info, depth - 1, out)
        },
        _ => Err(Error::CantCall { source_info: source_info.clone(), val: callable.clone() }),
    }
}

/// Binds the parameters of a fexpr to its unevaluated arguments in the
/// current frame.
pub fn apply_args(arg_list: &ArgList, args: &List, ctx: &mut Context, source_info: &SourceInfo) -> (res:
    Result<(), Error>)
    ensures
        old(ctx).frames().len() >= 1,
        match bind_params_spec(arg_list@, args@, old(ctx).frames()[0], source_info@) {
            Ok(frame) => res is Ok && final(ctx).frames() == old(ctx).frames().update(0, frame),
            Err(e) => res matches Err(x) && x@ == e && final(ctx).frames() == old(ctx).frames(),
        },
{
    proof {
        ctx.lemma_frames();
    }
    match arg_list {
        ArgList::Vargs(atom) => {
            define_weak(atom, Value::List(args.clone()), ctx);
            Ok(())
        },
        ArgList::Args(list) => {
            let expected = list.len();
            let found = list_len(ListRef::Value(args));
            if expected != found {
                Err(Error::BadArgsNum { source_info: source_info.clone(), expected, found })
            } else {
                let ghost names = atom_names(list@);
                let ghost frames = ctx.frames();
                let mut it = ListIter::new(args);
                let mut i: usize = 0;
                assert(names.skip(0) =~= names);
                assert(frames.update(0, frames[0]) =~= frames);
                loop
                    invariant
                        i <= list@.len(),
                        names == atom_names(list@),
                        frames == old(ctx).frames(),
                        frames.len() >= 1,
                        ctx.frames().len() >= 1,
                        ctx.frames() == frames.update(0, ctx.frames()[0]),
                        bind_each(names, args@, frames[0]) == bind_each(
                            names.skip(i as int),
                            it@,
                            ctx.frames()[0],
                        ),
                        arg_list@ == ArgListView::Args(names),
                        clamp(names.len()) == clamp(args@.len()),
                    decreases list@.len() - i,
                {
                    if i >= list.len() {
                        return Ok(());
                    }
                    match it.next() {
                        None => {
                            return Ok(());
                        },
                        Some(val) => {
                            assert(names.skip(i as int).drop_first() =~= names.skip(i + 1));
                            define_weak(&list[i], val.clone(), ctx);
                            assert(ctx.frames() =~= frames.update(0, ctx.frames()[0]));
                            i = i + 1;
                        },
                    }
                }
            }
        },
    }
}

/// Evaluates the elements of `args` from left to right.
pub fn eval_args(
    args: &List,
    ctx: &mut Context,
    source_info: &SourceInfo,
    depth: usize,
    out: &mut String,
) -> (res: Result<List, Error>)
    ensures
        ({
            let o = eval_args_spec(
                depth as nat,
                args@,
                machine(old(ctx).frames(), old(out)@),
                source_info@,
            );
            &&& final(ctx).frames() == o.machine.frames
            &&& final(out)@ == o.machine.out
            &&& match o.result {
                Ok(vals) => res matches Ok(l) && l@ == vals,
                Err(e) => res matches Err(x) && x@ == e,
            }
        }),
    decreases depth, 2nat, args@.len(),
{
    match args {
        List::Empty => Ok(List::Empty),
        List::Head(head) => {
            proof {
                crate::value::lemma_list_view_head(&**head);
            }
            let first = match eval(&head.val, ctx, source_info, depth, out) {
                Ok(v) => v,
                Err(e) => {
                    return Err(e);
                },
            };
            let rest = match eval_args(&head.tail, ctx, source_info, depth, out) {
                Ok(l) => l,
                Err(e) => {
                    return Err(e);
                },
            };
            Ok(cons(&first, ListRef::Value(&rest)))
        },
    }
}

/// Evaluates the elements of `body` in turn and gives what the last one
/// gave.
pub fn eval_body(
    body: &List,
    ctx: &mut Context,
    source_info: &SourceInfo,
    depth: usize,
    out: &mut String,
) -> (res: Result<Value, Error>)
    ensures
        realizes(
            eval_body_spec(
                depth as nat,
                body@,
                machine(old(ctx).frames(), old(out)@),
                source_info@,
                empty_list(),
            ),
            final(ctx).frames(),
            final(out)@,
            res,
        ),
    decreases depth, 2nat, body@.len(),
{
    let mut ret = Value::empty_list();
    let mut it = ListIter::new(body);
    loop
        invariant
            it@.len() <= body@.len(),
            eval_body_spec(
                depth as nat,
                body@,
                machine(old(ctx).frames(), old(out)@),
                source_info@,
                empty_list(),
            ) == eval_body_spec(
                depth as nat,
                it@,
                machine(ctx.frames(), out@),
                source_info@,
                ret@,
            ),
        decreases it@.len(),
    {
        match it.next() {
            None => {
                return Ok(ret);
            },
            Some(v) => match eval(v, ctx, source_info, depth, out) {
                Err(e) => {
                    return Err(e);
                },
                Ok(r) => {
                    ret = r;
                },
            },
        }
    }
}

/// Calls a fexpr with unevaluated arguments from the frame `parent_ctx`.
pub fn call_fexpr(
    fexpr: &Fexpr,
    args: &List,
    parent_ctx: &Context,
    source_info: &SourceInfo,
    depth: usize,
    out: &mut String,
) -> (res: Result<Value, Error>)
    ensures
        realizes(
            call_fexpr_spec(
                depth as nat,
                fexpr.arg_list@,
                fexpr.body@,
                args@,
                machine(parent_ctx.frames(), old(out)@),
                source_info@,
            ),
            parent_ctx.frames(),
            final(out)@,
            res,
        ),
    decreases depth, 5nat, 0nat,
{
    let mut ctx = Context::new(parent_ctx);
    proof {
        parent_ctx.lemma_frames();
        assert((seq![empty_frame(false)] + parent_ctx.frames()).update(
            0,
            bind_params_spec(
                fexpr.arg_list@,
                args@,
                empty_frame(false),
                source_info@,
            )->Ok_0,
        ) =~= seq![
            bind_params_spec(fexpr.arg_list@, args@, empty_frame(false), source_info@)->Ok_0,
        ] + parent_ctx.frames().skip(0));
    }
    match apply_args(&fexpr.arg_list, args, &mut ctx, source_info) {
        Err(e) => {
            return Err(e);
        },
        Ok(_) => {},
    }
    eval_body(&fexpr.body, &mut ctx, source_info, depth, out)
}

/// Calls a primitive, with evaluated arguments where it wants them so.
pub fn call_function(
    func: &Function,
    args: &List,
    ctx: &mut Context,
    source_info: &SourceInfo,
    depth: usize,
    out: &mut String,
) -> (res: Result<Value, Error>)
    ensures
        realizes(
            call_function_spec(
                depth as nat,
                *func,
                args@,
                machine(old(ctx).frames(), old(out)@),
                source_info@,
            ),
            final(ctx).frames(),
            final(out)@,
            res,
        ),
    decreases depth, 5nat, 0nat,
{
    if func.pre_evaluates() {
        match eval_args(args, ctx, source_info, depth, out) {
            Err(e) => Err(e),
            Ok(evaluated) => apply(func, &evaluated, ctx, source_info, depth, out),
        }
    } else {
        apply(func, args, ctx, source_info, depth, out)
    }
}

/// Hands arguments to a primitive.
pub fn apply(
    func: &Function,
    args: &List,
    ctx: &mut Context,
    source_info: &SourceInfo,
    depth: usize,
    out: &mut String,
) -> (res: Result<Value, Error>)
    ensures
        realizes(
            apply_spec(
                depth as nat,
                *func,
                args@,
                machine(old(ctx).frames(), old(out)@),
                source_info@,
            ),
            final(ctx).frames(),
            final(out)@,
            res,
        ),
    decreases depth, 4nat, 0nat,
{
    match func {
        Function::Puts | Function::PutsF => func_puts(args, ctx, source_info, out),
        Function::Cond => func_cond(args, ctx, source_info, depth, out),
        Function::Not => func_not(args, ctx, source_info, depth, out),
        Function::Assert => func_assert(args, ctx, source_info, depth, out),
        Function::Eval | Function::EvalF => func_eval(args, ctx, source_info, depth, out),
        Function::UpEval | Function::UpEvalF => func_upeval(args, ctx, source_info, depth, out),
        Function::Define | Function::DefineF => func_define(args, ctx, source_info),
        Function::AtomConcat | Function::AtomConcatF => crate::primitives::func_atom_concat(
            args,
            ctx,
            source_info,
        ),
        Function::AtomEq | Function::AtomEqF => crate::primitives::func_atom_eq(
            args,
            ctx,
            source_info,
        ),
        Function::IsAtom | Function::IsAtomF => crate::primitives::func_is_atom(
            args,
            ctx,
            source_info,
        ),
        Function::IsList | Function::IsListF => crate::primitives::func_is_list(
            args,
            ctx,
            source_info,
        ),
        Function::IsFexpr | Function::IsFexprF => crate::primitives::func_is_fexpr(
            args,
            ctx,
            source_info,
        ),
        Function::BeginF => func_begin(args, ctx, source_info, depth, out),
        Function::QuoteF => crate::primitives::func_quote(args, ctx, source_info),
        Function::List => crate::primitives::func_list(args, ctx, source_info),
        Function::Fexpr | Function::FexprF => crate::primitives::func_fexpr(
            args,
            ctx,
            source_info,
        ),
        Function::Car | Function::CarF => crate::primitives::func_car(args, ctx, source_info),
        Function::Cdr | Function::CdrF => crate::primitives::func_cdr(args, ctx, source_info),
        Function::Cons | Function::ConsF => crate::primitives::func_cons(args, ctx, source_info),
    }
}

/// `puts`: prints its arguments in a row and a newline.
pub fn func_puts(args: &List, _parent_ctx: &Context, _source_info: &SourceInfo, out: &mut String) -> (res:
    Result<Value, Error>)
    ensures
        realizes(
            puts_spec(args@, machine(_parent_ctx.frames(), old(out)@)),
            _parent_ctx.frames(),
            final(out)@,
            res,
        ),
{
    let mut it = ListIter::new(args);
    loop
        invariant
            out@ + row_text(it@) == old(out)@ + row_text(args@),
        decreases it@.len(),
    {
        let ghost before = out@;
        let ghost rest = it@;
        match it.next() {
            None => {
                out.push('\n');
                assert(out@ =~= old(out)@ + row_text(args@) + seq!['\n']);
                return Ok(Value::empty_list());
            },
            Some(v) => {
                print(out, v);
                assert(out@ + row_text(it@) =~= before + row_text(rest));
            },
        }
    }
}

/// `assert`: evaluates its arguments in turn and fails at the first that
/// gives the empty list.
pub fn func_assert(
    args: &List,
    ctx: &mut Context,
    source_info: &SourceInfo,
    depth: usize,
    out: &mut String,
) -> (res: Result<Value, Error>)
    ensures
        realizes(
            assert_spec(
                depth as nat,
                args@,
                0,
                machine(old(ctx).frames(), old(out)@),
                source_info@,
            ),
            final(ctx).frames(),
            final(out)@,
            res,
        ),
    decreases depth, 2nat, args@.len(),
{
    let mut it = ListIter::new(args);
    let mut idx: usize = 0;
    loop
        invariant
            it@.len() <= args@.len(),
            assert_spec(
                depth as nat,
                args@,
                0,
                machine(old(ctx).frames(), old(out)@),
                source_info@,
            ) == assert_spec(depth as nat, it@, idx, machine(ctx.frames(), out@), source_info@),
        decreases it@.len(),
    {
        match it.next() {
            None => {
                return Ok(Value::empty_list());
            },
            Some(v) => {
                idx = bump(idx);
                match eval(v, ctx, source_info, depth, out) {
                    Err(e) => {
                        return Err(e);
                    },
                    Ok(val) => {
                        if !val.is_truthy() {
                            return Err(
                                Error::AssertError {
                                    source_info: source_info.clone(),
                                    msg: number_message(
                                        "argument #",
                                        idx,
                                        " `",
                                        v,
                                        "' eval to an empty list",
                                    ),
                                },
                            );
                        }
                    },
                }
            },
        }
    }
}

/// `not`: whether its one argument evaluates to the empty list.
pub fn func_not(
    args: &List,
    ctx: &mut Context,
    source_info: &SourceInfo,
    depth: usize,
    out: &mut String,
) -> (res: Result<Value, Error>)
    ensures
        realizes(
            not_spec(depth as nat, args@, machine(old(ctx).frames(), old(out)@), source_info@),
            final(ctx).frames(),
            final(out)@,
            res,
        ),
    decreases depth, 3nat, 0nat,
{
    let val = match single_arg(
        args,
        source_info,
        "not: must have an argument",
        "not: must have only one argument",
    ) {
        Ok(v) => v,
        Err(e) => {
            return Err(e);
        },
    };
    match eval(val, ctx, source_info, depth, out) {
        Err(e) => Err(e),
        Ok(v) => {
            if v.is_truthy() {
                Ok(Value::empty_list())
            } else {
                Ok(Value::truth())
            }
        },
    }
}

/// `cond`: the expression of the first test that counts as true.
pub fn func_cond(
    args: &List,
    ctx: &mut Context,
    source_info: &SourceInfo,
    depth: usize,
    out: &mut String,
) -> (res: Result<Value, Error>)
    ensures
        realizes(
            cond_spec(depth as nat, args@, machine(old(ctx).frames(), old(out)@), source_info@),
            final(ctx).frames(),
            final(out)@,
            res,
        ),
    decreases depth, 3nat, 0nat,
{
    if has_odd_length(args) {
        return Err(
            bad_args(source_info, "cond: must have an even number of arguments".to_owned()),
        );
    }
    let mut it = ListIter::new(args);
    loop
        invariant
            it@.len() % 2 == 0,
            cond_spec(depth as nat, args@, machine(old(ctx).frames(), old(out)@), source_info@)
                == cond_pairs_spec(depth as nat, it@, machine(ctx.frames(), out@), source_info@),
        decreases it@.len(),
    {
        let ghost rest = it@;
        let test = match it.next() {
            None => {
                return Ok(Value::empty_list());
            },
            Some(v) => v,
        };
        let val = match it.next() {
            None => unreached(),
            Some(v) => v,
        };
        assert(rest.drop_first().drop_first() =~= rest.skip(2));
        assert(val@ == rest[1]);
        match eval(test, ctx, source_info, depth, out) {
            Err(e) => {
                return Err(e);
            },
            Ok(t) => {
                if t.is_truthy() {
                    return eval(val, ctx, source_info, depth, out);
                }
            },
        }
    }
}

/// `eval`: evaluates its one argument in a new frame below `parent_ctx`.
pub fn func_eval(
    args: &List,
    parent_ctx: &Context,
    source_info: &SourceInfo,
    depth: usize,
    out: &mut String,
) -> (res: Result<Value, Error>)
    ensures
        realizes(
            eval_prim_spec(
                depth as nat,
                args@,
                machine(parent_ctx.frames(), old(out)@),
                source_info@,
            ),
            parent_ctx.frames(),
            final(out)@,
            res,
        ),
    decreases depth, 3nat, 0nat,
{
    let val = match single_arg(
        args,
        source_info,
        "eval: must have an argument",
        "eval: must have only one argument",
    ) {
        Ok(v) => v,
        Err(e) => {
            return Err(e);
        },
    };
    proof {
        assert(parent_ctx.frames().skip(0) =~= parent_ctx.frames());
    }
    let mut ctx = Context::new(parent_ctx);
    eval(val, &mut ctx, source_info, depth, out)
}

/// `upeval`: evaluates its one argument one frame up, as seen from the
/// nearest frame that `upeval` did not make.
pub fn func_upeval(
    args: &List,
    parent_ctx: &Context,
    source_info: &SourceInfo,
    depth: usize,
    out: &mut String,
) -> (res: Result<Value, Error>)
    ensures
        realizes(
            upeval_spec(
                depth as nat,
                args@,
                machine(parent_ctx.frames(), old(out)@),
                source_info@,
            ),
            parent_ctx.frames(),
            final(out)@,
            res,
        ),
    decreases depth, 3nat, 0nat,
{
    let val = match single_arg(
        args,
        source_info,
        "upeval: must have an argument",
        "upeval: must have only one argument",
    ) {
        Ok(v) => v,
        Err(e) => {
            return Err(e);
        },
    };
    let ghost frames = parent_ctx.frames();
    let ghost mut k: int = 0;
    let mut from: &Context = parent_ctx;
    proof {
        parent_ctx.lemma_frames();
        assert(frames.skip(0) =~= frames);
    }
    while from.is_upeval()
        invariant
            frames == parent_ctx.frames(),
            0 <= k < frames.len(),
            from.frames() == frames.skip(k),
            crate::env::first_plain_frame(frames, 0) == crate::env::first_plain_frame(frames, k),
            out@ == old(out)@,
            single_arg_spec(
                args@,
                source_info@,
                "upeval: must have an argument"@,
                "upeval: must have only one argument"@,
            ) == Ok::<ValueView, ErrorView>(val@),
        decreases frames.len() - k,
    {
        match from.parent() {
            Some(p) => {
                proof {
                    assert(frames.skip(k).drop_first() =~= frames.skip(k + 1));
                    k = k + 1;
                }
                from = p;
            },
            None => {
                assert(crate::env::first_plain_frame(frames, k + 1) is None);
                return Err(Error::NoUpCtx { source_info: source_info.clone() });
            },
        }
    }
    let target = match from.parent() {
        Some(p) => p,
        None => {
            return Err(Error::NoUpCtx { source_info: source_info.clone() });
        },
    };
    proof {
        assert(frames.skip(k).drop_first() =~= frames.skip(k + 1));
    }
    let mut ctx = Context::new_upeval(target);
    eval(val, &mut ctx, source_info, depth, out)
}

/// `define`: binds the atom that is its first argument strongly to its
/// second, in the current frame.
pub fn func_define(args: &List, ctx: &mut Context, source_info: &SourceInfo) -> (res: Result<
    Value,
    Error,
>)
    ensures
        old(ctx).frames().len() >= 1,
        match define_prim_spec(args@, old(ctx).frames()[0], source_info@) {
            Ok(frame) => res matches Ok(v) && v@ == empty_list() && final(ctx).frames() == old(
                ctx,
            ).frames().update(0, frame),
            Err(e) => res matches Err(x) && x@ == e && final(ctx).frames() == old(ctx).frames(),
        },
{
    proof {
        ctx.lemma_frames();
    }
    let mut it = ListIter::new(args);
    let key = match it.next() {
        None => {
            return Err(bad_args(source_info, "define: must have two arguments".to_owned()));
        },
        Some(v) => match v.atom_name() {
            Some(name) => Atom { name: name.clone() },
            None => {
                return Err(
                    bad_args(
                        source_info,
                        quote_message("define: the first argument `", v, "' is not an atom"),
                    ),
                );
            },
        },
    };
    let val = match it.next() {
        Some(v) => v,
        None => {
            return Err(bad_args(source_info, "define: must have a second argument".to_owned()));
        },
    };
    if it.next().is_some() {
        return Err(bad_args(source_info, "define: must have only two arguments".to_owned()));
    }
    match define(&key, val.clone(), ctx, source_info) {
        Err(e) => Err(e),
        Ok(_) => Ok(Value::empty_list()),
    }
}

/// `begin!`: evaluates its arguments in turn in a new frame below
/// `parent_ctx`.
pub fn func_begin(
    args: &List,
    parent_ctx: &Context,
    source_info: &SourceInfo,
    depth: usize,
    out: &mut String,
) -> (res: Result<Value, Error>)
    ensures
        realizes(
            begin_spec(
                depth as nat,
                args@,
                machine(parent_ctx.frames(), old(out)@),
                source_info@,
            ),
            parent_ctx.frames(),
            final(out)@,
            res,
        ),
    decreases depth, 3nat, 0nat,
{
    proof {
        assert(parent_ctx.frames().skip(0) =~= parent_ctx.frames());
    }
    let mut ctx = Context::new(parent_ctx);
    eval_body(args, &mut ctx, source_info, depth, out)
}

/// What a program gives and prints: its forms are evaluated in turn in a
/// new root frame, at most [`MAX_DEPTH`] calls deep.
pub open spec fn eval_source_spec(forms: Seq<SourceValueView>, out: Seq<char>) -> Outcome<
    ValueView,
> {
    program_spec(MAX_DEPTH as nat, forms, machine(seq![root_frame()], out), empty_list())
}

/// Evaluates a program. What it prints goes to the end of `out`; the
/// result is that of its last form, or the empty list if it has none. A
/// call nested deeper than [`MAX_DEPTH`] fails with
/// [`Error::DepthExceeded`].
pub fn eval_source(src: &[crate::source::Value], out: &mut String) -> (res: Result<Value, Error>)
    ensures
        final(out)@ == eval_source_spec(crate::source::views(src@), old(out)@).machine.out,
        result_view(res) == eval_source_spec(crate::source::views(src@), old(out)@).result,
{
    let mut ctx = crate::env::create_root_context();
    let ghost forms = crate::source::views(src@);
    let mut ret = Value::empty_list();
    let mut i: usize = 0;
    assert(forms.skip(0) =~= forms);
    while i < src.len()
        invariant
            i <= src@.len(),
            forms == crate::source::views(src@),
            eval_source_spec(forms, old(out)@) == program_spec(
                MAX_DEPTH as nat,
                forms.skip(i as int),
                machine(ctx.frames(), out@),
                ret@,
            ),
        decreases src@.len() - i,
    {
        assert(forms.skip(i as int).drop_first() =~= forms.skip(i + 1));
        let val = &src[i];
        match eval(&Value::from_source(val), &mut ctx, val.source_info(), MAX_DEPTH, out) {
            Err(e) => {
                return Err(e);
            },
            Ok(v) => {
                ret = v;
            },
        }
        i = i + 1;
    }
    Ok(ret)
}

/// `not` turns the empty list into the canonical true value and that value
/// into the empty list, and two `not`s keep what counts as true and what
/// does not.
pub proof fn lemma_not_involution(v: ValueView)
    ensures
        not_value(empty_list()) == true_value(),
        not_value(true_value()) == empty_list(),
        not_value(not_value(v)).is_truthy() == v.is_truthy(),
        not_value(v).is_truthy() == !v.is_truthy(),
{
}

/// `upeval` fails, whatever its argument, where `upeval` made every frame
/// below the root: the nearest plain frame, from the current one up, is
/// then the root, which has no parent.
pub proof fn lemma_upeval_without_outer_frame(
    depth: nat,
    arg: ValueView,
    m: Machine,
    source_info: SourceInfoView,
)
    requires
        forall|i: int| 0 <= i < m.frames.len() - 1 ==> (#[trigger] m.frames[i]).is_upeval,
    ensures
        upeval_spec(depth, seq![arg], m, source_info) == fail::<ValueView>(
            m,
            ErrorView::NoUpCtx { source_info },
        ),
        call_function_spec(depth, Function::UpEvalF, seq![arg], m, source_info) == fail::<
            ValueView,
        >(m, ErrorView::NoUpCtx { source_info }),
{
    crate::env::lemma_upeval_target_none(m.frames);
}

/// `define!` of a name that the current frame binds strongly fails and
/// leaves the frames as they are.
pub proof fn lemma_define_bound(
    depth: nat,
    key: ValueView,
    val: ValueView,
    m: Machine,
    source_info: SourceInfoView,
)
    requires
        m.frames.len() >= 1,
        key.atom_name() matches Some(name) && m.frames[0].strong.contains_key(name),
    ensures
        call_function_spec(depth, Function::DefineF, seq![key, val], m, source_info) == fail::<
            ValueView,
        >(
            m,
            ErrorView::Redefinition {
                source_info,
                key: key.atom_name().unwrap(),
                old_val: m.frames[0].strong[key.atom_name().unwrap()],
                new_val: val,
            },
        ),
{
}

/// In a frame of its own, as `begin!`, `eval` and a fexpr call make one,
/// `define!` succeeds whatever the frames above bind, and binds there.
pub proof fn lemma_define_in_child(
    depth: nat,
    key: ValueView,
    val: ValueView,
    m: Machine,
    source_info: SourceInfoView,
)
    requires
        key.atom_name() is Some,
    ensures
        ({
            let inner = enter(m, empty_frame(false), 0);
            let o = call_function_spec(depth, Function::DefineF, seq![key, val], inner, source_info);
            &&& o.result == Ok::<ValueView, ErrorView>(empty_list())
            &&& lookup_spec(o.machine.frames, key.atom_name().unwrap()) == val
            &&& o.machine.frames.drop_first() == inner.frames.drop_first()
        }),
{
    let inner = enter(m, empty_frame(false), 0);
    let o = call_function_spec(depth, Function::DefineF, seq![key, val], inner, source_info);
    assert(o.machine.frames.drop_first() =~= inner.frames.drop_first());
}

/// A frame made for a call does not outlive it: after `begin!`, `eval`,
/// `upeval` and a fexpr call the frames are those from before, whatever was
/// evaluated and whether or not it failed.
pub proof fn lemma_frames_restored(
    depth: nat,
    args: Seq<ValueView>,
    params: ArgListView,
    body: Seq<ValueView>,
    m: Machine,
    source_info: SourceInfoView,
)
    ensures
        begin_spec(depth, args, m, source_info).machine.frames == m.frames,
        eval_prim_spec(depth, args, m, source_info).machine.frames == m.frames,
        upeval_spec(depth, args, m, source_info).machine.frames == m.frames,
        call_fexpr_spec(depth, params, body, args, m, source_info).machine.frames == m.frames,
{
}

/// A `define!` inside `begin!` binds in the frame that `begin!` made. So it
/// succeeds whatever the frames of the caller bind, `begin!` gives the
/// empty list, and frames and printed text are as they were before: a name
/// that the caller binds still stands for what it stood for. The form is a
/// list, runtime or source, of three: a head that stands for `define!`, an
/// atom and a value. One call deep is deep enough.
pub proof fn lemma_begin_define(
    depth: nat,
    form: ValueView,
    head: ValueView,
    key: ValueView,
    val: ValueView,
    m: Machine,
    source_info: SourceInfoView,
)
    requires
        depth > 0,
        form is List || form is SourceList,
        form.list_items() == Some(seq![head, key, val]),
        callee_spec(head, enter(m, empty_frame(false), 0).frames) == ValueView::Function(
            Function::DefineF,
        ),
        key.atom_name() is Some,
    ensures
        begin_spec(depth, seq![form], m, source_info) == done(m, empty_list()),
{
    let inner = enter(m, empty_frame(false), 0);
    let items = seq![head, key, val];
    let at = match form {
        ValueView::SourceList { info, .. } => info,
        _ => source_info,
    };
    let args = items.drop_first();
    assert(args =~= seq![key, val]);
    assert(inner.frames[0] == empty_frame(false));
    let frame = define_spec(empty_frame(false), key.atom_name().unwrap(), val, at)->Ok_0;
    let bound = with_top(inner, frame);
    assert(define_prim_spec(args, inner.frames[0], at) == Ok::<FrameView, ErrorView>(frame));
    assert(apply_spec((depth - 1) as nat, Function::DefineF, args, inner, at) == done(
        bound,
        empty_list(),
    ));
    assert(call_function_spec((depth - 1) as nat, Function::DefineF, args, inner, at) == done(
        bound,
        empty_list(),
    ));
    assert(call_spec(depth, items, inner, at) == done(bound, empty_list()));
    assert(eval_spec(depth, form, inner, source_info) == done(bound, empty_list()));
    let forms = seq![form];
    assert(forms.drop_first().len() == 0);
    assert(eval_body_spec(depth, forms.drop_first(), bound, source_info, empty_list()) == done(
        bound,
        empty_list(),
    ));
    assert(eval_body_spec(depth, forms, inner, source_info, empty_list()) == done(
        bound,
        empty_list(),
    ));
    assert(leave(m, done(bound, empty_list())).machine == m);
}

} // verus!
