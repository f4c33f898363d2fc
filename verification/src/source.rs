use crate::trusted::rc_clone;
use std::rc::Rc;
use vstd::prelude::*;

verus! {

/// A number as far as `usize` can count: numbers beyond `usize::MAX` stand
/// at `usize::MAX`.
pub open spec fn clamp(n: nat) -> usize {
    if n <= usize::MAX {
        n as usize
    } else {
        usize::MAX
    }
}

/// A position in a named source text.
#[derive(Debug)]
pub struct SourceInfo {
    pub name: String,
    pub lineno: usize,
    pub charno: usize,
}

/// Mathematical model of a [`SourceInfo`].
pub ghost struct SourceInfoView {
    pub name: Seq<char>,
    pub lineno: usize,
    pub charno: usize,
}

/// An atom as it was read, with the position of its first character.
#[derive(Debug)]
pub struct Atom {
    pub name: String,
    pub source_info: SourceInfo,
}

/// A list as it was read, with the position of its opening parenthesis.
#[derive(Debug)]
pub struct List {
    pub list: Rc<Vec<Value>>,
    pub source_info: SourceInfo,
}

/// A value as it was read.
#[derive(Debug)]
pub enum Value {
    Atom(Atom),
    List(List),
}

/// Mathematical model of a source [`Value`].
pub ghost enum SourceValueView {
    Atom { name: Seq<char>, info: SourceInfoView },
    List { items: Seq<SourceValueView>, info: SourceInfoView },
}

impl View for SourceInfo {
    type V = SourceInfoView;

    open spec fn view(&self) -> SourceInfoView {
        SourceInfoView { name: self.name@, lineno: self.lineno, charno: self.charno }
    }
}

/// The model of a source value.
pub open spec fn value_view(v: Value) -> SourceValueView
    decreases v,
{
    match v {
        Value::Atom(a) => SourceValueView::Atom { name: a.name@, info: a.source_info@ },
        Value::List(l) => SourceValueView::List {
            items: Seq::new(
                l.list@.len(),
                |i: int|
                    if 0 <= i < l.list@.len() {
                        value_view(l.list@[i])
                    } else {
                        arbitrary()
                    },
            ),
            info: l.source_info@,
        },
    }
}

impl View for Value {
    type V = SourceValueView;

    open spec fn view(&self) -> SourceValueView {
        value_view(*self)
    }
}

impl Clone for SourceInfo {
    fn clone(&self) -> (res: Self)
        ensures
            res == *self,
    {
        SourceInfo { name: self.name.clone(), lineno: self.lineno, charno: self.charno }
    }
}

impl Clone for Value {
    fn clone(&self) -> (res: Self)
        ensures
            res == *self,
    {
        match self {
            Value::Atom(a) => Value::Atom(a.clone()),
            Value::List(l) => Value::List(l.clone()),
        }
    }
}

impl Clone for Atom {
    fn clone(&self) -> (res: Self)
        ensures
            res == *self,
    {
        Atom { name: self.name.clone(), source_info: self.source_info.clone() }
    }
}

impl Clone for List {
    fn clone(&self) -> (res: Self)
        ensures
            res == *self,
    {
        List { list: rc_clone(&self.list), source_info: self.source_info.clone() }
    }
}

/// The models of the values of a sequence of source values, in order.
pub open spec fn views(items: Seq<Value>) -> Seq<SourceValueView> {
    Seq::new(items.len(), |i: int| items[i]@)
}

impl SourceValueView {
    /// The position recorded with the value.
    pub open spec fn info(self) -> SourceInfoView {
        match self {
            SourceValueView::Atom { info, .. } => info,
            SourceValueView::List { info, .. } => info,
        }
    }
}

impl Value {
    /// The position of the value's first character.
    pub fn source_info(&self) -> (res: &SourceInfo)
        ensures
            res@ == self@.info(),
    {
        match self {
            Value::Atom(a) => &a.source_info,
            Value::List(l) => &l.source_info,
        }
    }
}

/// The model of a source list holds the models of its children.
pub proof fn lemma_list_view(l: &List)
    ensures
        Value::List(*l)@ == (SourceValueView::List { items: views(l.list@), info: l.source_info@ }),
{
    let v = Value::List(*l)@;
    assert(v is List);
    assert(v->List_info == l.source_info@);
    assert(v->List_items.len() == l.list@.len());
    assert forall|i: int| 0 <= i < l.list@.len() implies v->List_items[i] == views(l.list@)[i] by {}
    assert(v->List_items =~= views(l.list@));
}

} // verus!
