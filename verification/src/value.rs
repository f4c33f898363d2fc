use crate::source;
use crate::trusted::rc_clone;
use crate::source::{SourceInfoView, SourceValueView};
use std::rc::Rc;
use vstd::prelude::*;

verus! {

/// A runtime atom: a name without a position. Atoms are equal, ordered and
/// hashed by name.
#[derive(Debug, PartialEq, Eq, PartialOrd, Ord, Hash)]
pub struct Atom {
    pub name: String,
}

/// A persistent singly linked list of runtime values.
#[derive(Debug)]
pub enum List {
    Empty,
    Head(Rc<ListHead>),
}

/// One cell of a [`List`].
#[derive(Debug)]
pub struct ListHead {
    pub val: Value,
    pub tail: List,
}

/// The parameter declaration of a fexpr.
#[derive(Debug)]
pub enum ArgList {
    /// One name that receives the whole argument list.
    Vargs(Atom),
    /// One name per argument.
    Args(Rc<Vec<Atom>>),
}

/// A user-defined operator: parameters and a body, both unevaluated.
#[derive(Debug)]
pub struct Fexpr {
    pub arg_list: ArgList,
    pub body: List,
}

/// The primitive operators. Names that end in `F` take their arguments
/// unevaluated.
#[derive(Clone, Copy, Debug, PartialEq, Eq, Structural)]
pub enum Function {
    Puts,
    PutsF,
    Cond,
    Not,
    Assert,
    Eval,
    EvalF,
    UpEval,
    UpEvalF,
    Define,
    DefineF,
    AtomConcat,
    AtomConcatF,
    AtomEq,
    AtomEqF,
    IsAtom,
    IsAtomF,
    IsList,
    IsListF,
    IsFexpr,
    IsFexprF,
    BeginF,
    QuoteF,
    List,
    Fexpr,
    FexprF,
    Car,
    CarF,
    Cdr,
    CdrF,
    Cons,
    ConsF,
}

/// A runtime value.
#[derive(Debug)]
pub enum Value {
    SourceAtom(source::Atom),
    SourceList(source::List),
    Atom(Atom),
    List(List),
    Fexpr(Fexpr),
    Function(Function),
}

/// Mathematical model of an [`ArgList`].
pub ghost enum ArgListView {
    Vargs(Seq<char>),
    Args(Seq<Seq<char>>),
}

/// Mathematical model of a [`Value`]. A runtime list is the sequence of its
/// elements.
pub ghost enum ValueView {
    SourceAtom { name: Seq<char>, info: SourceInfoView },
    SourceList { items: Seq<SourceValueView>, info: SourceInfoView },
    Atom(Seq<char>),
    List(Seq<ValueView>),
    Fexpr { params: ArgListView, body: Seq<ValueView> },
    Function(Function),
}

/// The names of a sequence of atoms, in order.
pub open spec fn atom_names(atoms: Seq<Atom>) -> Seq<Seq<char>> {
    Seq::new(atoms.len(), |i: int| atoms[i].name@)
}

/// The model of a runtime value.
pub open spec fn value_view(v: Value) -> ValueView
    decreases v,
{
    match v {
        Value::SourceAtom(a) => ValueView::SourceAtom { name: a.name@, info: a.source_info@ },
        Value::SourceList(l) => ValueView::SourceList {
            items: source::views(l.list@),
            info: l.source_info@,
        },
        Value::Atom(a) => ValueView::Atom(a.name@),
        Value::List(l) => ValueView::List(list_view(l)),
        Value::Fexpr(f) => ValueView::Fexpr { params: f.arg_list@, body: list_view(f.body) },
        Value::Function(f) => ValueView::Function(f),
    }
}

/// The elements of a runtime list, first to last.
pub open spec fn list_view(l: List) -> Seq<ValueView>
    decreases l,
{
    match l {
        List::Empty => Seq::empty(),
        List::Head(head) => seq![value_view(head.val)] + list_view(head.tail),
    }
}

impl View for Atom {
    type V = Seq<char>;

    open spec fn view(&self) -> Seq<char> {
        self.name@
    }
}

impl View for ArgList {
    type V = ArgListView;

    open spec fn view(&self) -> ArgListView {
        match self {
            ArgList::Vargs(a) => ArgListView::Vargs(a.name@),
            ArgList::Args(atoms) => ArgListView::Args(atom_names(atoms@)),
        }
    }
}

impl View for List {
    type V = Seq<ValueView>;

    open spec fn view(&self) -> Seq<ValueView> {
        list_view(*self)
    }
}

impl View for Value {
    type V = ValueView;

    open spec fn view(&self) -> ValueView {
        value_view(*self)
    }
}

/// The empty list.
pub open spec fn empty_list() -> ValueView {
    ValueView::List(Seq::empty())
}

/// The canonical true value: the atom `true`.
pub open spec fn true_value() -> ValueView {
    ValueView::Atom("true"@)
}

/// A source value taken as a runtime value, position kept.
pub open spec fn from_source(v: SourceValueView) -> ValueView {
    match v {
        SourceValueView::Atom { name, info } => ValueView::SourceAtom { name, info },
        SourceValueView::List { items, info } => ValueView::SourceList { items, info },
    }
}

/// The children of a source list taken as runtime values.
pub open spec fn from_source_items(items: Seq<SourceValueView>) -> Seq<ValueView> {
    Seq::new(items.len(), |i: int| from_source(items[i]))
}

impl ValueView {
    /// Every value counts as true but the empty list, which is the runtime
    /// list without elements. A source list counts as true even where it has
    /// no children.
    pub open spec fn is_truthy(self) -> bool {
        match self {
            ValueView::List(items) => items.len() > 0,
            _ => true,
        }
    }

    /// The name of an atom, with or without a position.
    pub open spec fn atom_name(self) -> Option<Seq<char>> {
        match self {
            ValueView::Atom(name) => Some(name),
            ValueView::SourceAtom { name, .. } => Some(name),
            _ => None,
        }
    }

    /// The elements of a list, runtime or source.
    pub open spec fn list_items(self) -> Option<Seq<ValueView>> {
        match self {
            ValueView::List(items) => Some(items),
            ValueView::SourceList { items, .. } => Some(from_source_items(items)),
            _ => None,
        }
    }
}

/// A cons cell's elements are its head followed by those of its tail.
pub proof fn lemma_list_view_head(head: &ListHead)
    ensures
        List::Head(Rc::new(*head))@ == seq![head.val@] + head.tail@,
        List::Head(Rc::new(*head))@.len() == head.tail@.len() + 1,
        List::Head(Rc::new(*head))@[0] == head.val@,
        List::Head(Rc::new(*head))@.drop_first() == head.tail@,
{
    let s = seq![head.val@] + head.tail@;
    assert(s.drop_first() =~= head.tail@);
}

impl Clone for Atom {
    fn clone(&self) -> (res: Self)
        ensures
            res == *self,
    {
        Atom { name: self.name.clone() }
    }
}

impl Clone for List {
    fn clone(&self) -> (res: Self)
        ensures
            res == *self,
    {
        match self {
            List::Empty => List::Empty,
            List::Head(head) => List::Head(rc_clone(head)),
        }
    }
}

impl Clone for ArgList {
    fn clone(&self) -> (res: Self)
        ensures
            res == *self,
    {
        match self {
            ArgList::Vargs(a) => ArgList::Vargs(a.clone()),
            ArgList::Args(atoms) => ArgList::Args(rc_clone(atoms)),
        }
    }
}

impl Clone for Fexpr {
    fn clone(&self) -> (res: Self)
        ensures
            res == *self,
    {
        Fexpr { arg_list: self.arg_list.clone(), body: self.body.clone() }
    }
}

impl Clone for Value {
    fn clone(&self) -> (res: Self)
        ensures
            res == *self,
    {
        match self {
            Value::SourceAtom(a) => Value::SourceAtom(a.clone()),
            Value::SourceList(l) => Value::SourceList(l.clone()),
            Value::Atom(a) => Value::Atom(a.clone()),
            Value::List(l) => Value::List(l.clone()),
            Value::Fexpr(f) => Value::Fexpr(f.clone()),
            Value::Function(f) => Value::Function(*f),
        }
    }
}

/// The name under which a primitive operator is bound and printed.
pub open spec fn function_name(f: Function) -> Seq<char> {
    match f {
        Function::Puts => "puts"@,
        Function::PutsF => "puts!"@,
        Function::Cond => "cond"@,
        Function::Not => "not"@,
        Function::Assert => "assert"@,
        Function::Eval => "eval"@,
        Function::EvalF => "eval!"@,
        Function::UpEval => "upeval"@,
        Function::UpEvalF => "upeval!"@,
        Function::Define => "define"@,
        Function::DefineF => "define!"@,
        Function::AtomConcat => "atom-concat"@,
        Function::AtomConcatF => "atom-concat!"@,
        Function::AtomEq => "atom-eq?"@,
        Function::AtomEqF => "atom-eq?!"@,
        Function::IsAtom => "atom?"@,
        Function::IsAtomF => "atom?!"@,
        Function::IsList => "list?"@,
        Function::IsListF => "list?!"@,
        Function::IsFexpr => "fexpr?"@,
        Function::IsFexprF => "fexpr?!"@,
        Function::BeginF => "begin!"@,
        Function::QuoteF => "quote!"@,
        Function::List => "list"@,
        Function::Fexpr => "fexpr"@,
        Function::FexprF => "fexpr!"@,
        Function::Car => "car"@,
        Function::CarF => "car!"@,
        Function::Cdr => "cdr"@,
        Function::CdrF => "cdr!"@,
        Function::Cons => "cons"@,
        Function::ConsF => "cons!"@,
    }
}

/// Every primitive operator, in the order in which the root frame binds
/// them.
pub open spec fn all_functions() -> Seq<Function> {
    seq![
        Function::Puts,
        Function::PutsF,
        Function::Cond,
        Function::Not,
        Function::Assert,
        Function::Eval,
        Function::EvalF,
        Function::UpEval,
        Function::UpEvalF,
        Function::Define,
        Function::DefineF,
        Function::AtomConcat,
        Function::AtomConcatF,
        Function::AtomEq,
        Function::AtomEqF,
        Function::IsAtom,
        Function::IsAtomF,
        Function::IsList,
        Function::IsListF,
        Function::IsFexpr,
        Function::IsFexprF,
        Function::BeginF,
        Function::QuoteF,
        Function::List,
        Function::Fexpr,
        Function::FexprF,
        Function::Car,
        Function::CarF,
        Function::Cdr,
        Function::CdrF,
        Function::Cons,
        Function::ConsF,
    ]
}

impl Function {
    /// Every primitive operator.
    pub fn all() -> (res: Vec<Function>)
        ensures
            res@ == all_functions(),
    {
        vec![
            Function::Puts,
            Function::PutsF,
            Function::Cond,
            Function::Not,
            Function::Assert,
            Function::Eval,
            Function::EvalF,
            Function::UpEval,
            Function::UpEvalF,
            Function::Define,
            Function::DefineF,
            Function::AtomConcat,
            Function::AtomConcatF,
            Function::AtomEq,
            Function::AtomEqF,
            Function::IsAtom,
            Function::IsAtomF,
            Function::IsList,
            Function::IsListF,
            Function::IsFexpr,
            Function::IsFexprF,
            Function::BeginF,
            Function::QuoteF,
            Function::List,
            Function::Fexpr,
            Function::FexprF,
            Function::Car,
            Function::CarF,
            Function::Cdr,
            Function::CdrF,
            Function::Cons,
            Function::ConsF,
        ]
    }

    /// The name under which the operator is bound and printed.
    pub fn name(&self) -> (res: &'static str)
        ensures
            res@ == function_name(*self),
    {
        match self {
            Function::Puts => "puts",
            Function::PutsF => "puts!",
            Function::Cond => "cond",
            Function::Not => "not",
            Function::Assert => "assert",
            Function::Eval => "eval",
            Function::EvalF => "eval!",
            Function::UpEval => "upeval",
            Function::UpEvalF => "upeval!",
            Function::Define => "define",
            Function::DefineF => "define!",
            Function::AtomConcat => "atom-concat",
            Function::AtomConcatF => "atom-concat!",
            Function::AtomEq => "atom-eq?",
            Function::AtomEqF => "atom-eq?!",
            Function::IsAtom => "atom?",
            Function::IsAtomF => "atom?!",
            Function::IsList => "list?",
            Function::IsListF => "list?!",
            Function::IsFexpr => "fexpr?",
            Function::IsFexprF => "fexpr?!",
            Function::BeginF => "begin!",
            Function::QuoteF => "quote!",
            Function::List => "list",
            Function::Fexpr => "fexpr",
            Function::FexprF => "fexpr!",
            Function::Car => "car",
            Function::CarF => "car!",
            Function::Cdr => "cdr",
            Function::CdrF => "cdr!",
            Function::Cons => "cons",
            Function::ConsF => "cons!",
        }
    }
}

impl Atom {
    /// An atom of the given name.
    pub fn new(name: &str) -> (res: Self)
        ensures
            res@ == name@,
    {
        Atom { name: name.to_owned() }
    }

    /// The runtime atom of the same name as a source atom.
    pub fn from_source(that: &source::Atom) -> (res: Self)
        ensures
            res@ == that.name@,
    {
        Atom { name: that.name.clone() }
    }
}

impl Value {
    /// The empty list.
    pub fn empty_list() -> (res: Self)
        ensures
            res@ == empty_list(),
    {
        Value::List(List::Empty)
    }

    /// The canonical true value.
    pub fn truth() -> (res: Self)
        ensures
            res@ == true_value(),
    {
        Value::Atom(Atom::new("true"))
    }

    /// A source value taken as a runtime value, position kept.
    pub fn from_source(that: &source::Value) -> (res: Self)
        ensures
            res@ == from_source(that@),
    {
        proof {
            if let source::Value::List(l) = that {
                source::lemma_list_view(l);
            }
        }
        match that {
            source::Value::Atom(a) => Value::SourceAtom(a.clone()),
            source::Value::List(l) => Value::SourceList(l.clone()),
        }
    }

    /// Whether the value counts as true: every value does but the runtime
    /// list without elements.
    pub fn is_truthy(&self) -> (res: bool)
        ensures
            res == self@.is_truthy(),
    {
        match self {
            Value::List(List::Empty) => false,
            Value::List(List::Head(head)) => {
                proof {
                    lemma_list_view_head(&**head);
                }
                true
            },
            _ => true,
        }
    }

    /// The name of an atom, with or without a position.
    pub fn atom_name(&self) -> (res: Option<&String>)
        ensures
            match res {
                Some(name) => self@.atom_name() == Some(name@),
                None => self@.atom_name() is None,
            },
    {
        match self {
            Value::Atom(a) => Some(&a.name),
            Value::SourceAtom(a) => Some(&a.name),
            _ => None,
        }
    }
}

impl From<Atom> for Value {
    fn from(that: Atom) -> (res: Value) {
        Value::Atom(that)
    }
}

impl vstd::std_specs::convert::FromSpecImpl<Atom> for Value {
    open spec fn obeys_from_spec() -> bool {
        true
    }

    open spec fn from_spec(that: Atom) -> Value {
        Value::Atom(that)
    }
}

impl From<List> for Value {
    fn from(that: List) -> (res: Value) {
        Value::List(that)
    }
}

impl vstd::std_specs::convert::FromSpecImpl<List> for Value {
    open spec fn obeys_from_spec() -> bool {
        true
    }

    open spec fn from_spec(that: List) -> Value {
        Value::List(that)
    }
}

impl<'a> From<&'a source::Value> for Value {
    fn from(that: &'a source::Value) -> (res: Value) {
        match that {
            source::Value::Atom(a) => Value::SourceAtom(a.clone()),
            source::Value::List(l) => Value::SourceList(l.clone()),
        }
    }
}

impl<'a> vstd::std_specs::convert::FromSpecImpl<&'a source::Value> for Value {
    open spec fn obeys_from_spec() -> bool {
        true
    }

    open spec fn from_spec(that: &'a source::Value) -> Value {
        match that {
            source::Value::Atom(a) => Value::SourceAtom(*a),
            source::Value::List(l) => Value::SourceList(*l),
        }
    }
}

impl<'a> From<&'a source::Atom> for Atom {
    fn from(that: &'a source::Atom) -> (res: Atom) {
        Atom { name: that.name.clone() }
    }
}

impl<'a> vstd::std_specs::convert::FromSpecImpl<&'a source::Atom> for Atom {
    open spec fn obeys_from_spec() -> bool {
        true
    }

    open spec fn from_spec(that: &'a source::Atom) -> Atom {
        Atom { name: that.name }
    }
}

impl<'a> From<&'a Value> for bool {
    fn from(that: &'a Value) -> (res: bool) {
        that.is_truthy()
    }
}

impl<'a> vstd::std_specs::convert::FromSpecImpl<&'a Value> for bool {
    open spec fn obeys_from_spec() -> bool {
        true
    }

    open spec fn from_spec(that: &'a Value) -> bool {
        that@.is_truthy()
    }
}

} // verus!
