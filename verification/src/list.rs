use crate::source;
use crate::source::{clamp, views};
use crate::value::{from_source, from_source_items, lemma_list_view_head};
use crate::value::{List, ListHead, Value, ValueView};
use std::rc::Rc;
use vstd::prelude::*;

verus! {

/// A borrowed list, runtime or source.
#[derive(Clone, Copy)]
pub enum ListRef<'a> {
    Value(&'a List),
    Source(&'a source::List),
}

impl<'a> View for ListRef<'a> {
    type V = Seq<ValueView>;

    /// The elements as runtime values.
    open spec fn view(&self) -> Seq<ValueView> {
        match self {
            ListRef::Value(v) => v@,
            ListRef::Source(s) => from_source_items(views(s.list@)),
        }
    }
}

/// A cursor over the elements of a runtime list.
pub struct ListIter<'a> {
    next: &'a List,
}

impl<'a> View for ListIter<'a> {
    type V = Seq<ValueView>;

    /// The elements still to come.
    closed spec fn view(&self) -> Seq<ValueView> {
        self.next@
    }
}

impl<'a> ListIter<'a> {
    /// A cursor at the first element of `list`.
    pub fn new(list: &'a List) -> (res: Self)
        ensures
            res@ == list@,
    {
        ListIter { next: list }
    }

    /// The element under the cursor, which then moves on; nothing at the end.
    pub fn next(&mut self) -> (res: Option<&'a Value>)
        ensures
            match res {
                Some(v) => old(self)@.len() > 0 && v@ == old(self)@[0] && final(self)@ == old(
                    self,
                )@.drop_first(),
                None => old(self)@.len() == 0 && final(self)@ == old(self)@,
            },
    {
        match self.next {
            List::Empty => None,
            List::Head(head) => {
                proof {
                    lemma_list_view_head(&**head);
                }
                self.next = &head.tail;
                Some(&head.val)
            },
        }
    }
}

impl List {
    /// The runtime list of the source values from index `from` on.
    pub fn from_source(items: &Vec<source::Value>, from: usize) -> (res: Self)
        requires
            from <= items@.len(),
        ensures
            res@ == from_source_items(views(items@)).skip(from as int),
    {
        let ghost all = from_source_items(views(items@));
        let mut head = List::Empty;
        let mut i = items.len();
        assert(head@ =~= all.skip(i as int));
        while i > from
            invariant
                from <= i <= items@.len(),
                all == from_source_items(views(items@)),
                head@ == all.skip(i as int),
            decreases i,
        {
            i = i - 1;
            let cell = ListHead { val: Value::from_source(&items[i]), tail: head };
            proof {
                lemma_list_view_head(&cell);
                assert(all.skip(i as int) =~= seq![all[i as int]] + all.skip(i + 1));
            }
            head = List::Head(Rc::new(cell));
        }
        head
    }
}

/// The first element of a list, if it has one.
pub fn car(list: ListRef) -> (res: Option<Value>)
    ensures
        match res {
            Some(v) => list@.len() > 0 && v@ == list@[0],
            None => list@.len() == 0,
        },
{
    match list {
        ListRef::Value(v) => match v {
            List::Empty => None,
            List::Head(head) => {
                proof {
                    lemma_list_view_head(&**head);
                }
                Some(head.val.clone())
            },
        },
        ListRef::Source(s) => {
            if s.list.len() == 0 {
                None
            } else {
                Some(Value::from_source(&s.list[0]))
            }
        },
    }
}

/// The elements of a list after the first, if it has a first.
pub fn cdr(list: ListRef) -> (res: Option<List>)
    ensures
        match res {
            Some(l) => list@.len() > 0 && l@ == list@.drop_first(),
            None => list@.len() == 0,
        },
{
    match list {
        ListRef::Value(v) => match v {
            List::Empty => None,
            List::Head(head) => {
                proof {
                    lemma_list_view_head(&**head);
                }
                Some(head.tail.clone())
            },
        },
        ListRef::Source(s) => {
            if s.list.len() == 0 {
                None
            } else {
                Some(List::from_source(&s.list, 1))
            }
        },
    }
}

/// The list of `val` followed by the elements of `list`.
pub fn cons(val: &Value, list: ListRef) -> (res: List)
    ensures
        res@ == seq![val@] + list@,
{
    let cell = match list {
        ListRef::Value(v) => ListHead { val: val.clone(), tail: v.clone() },
        ListRef::Source(s) => {
            let tail = List::from_source(&s.list, 0);
            assert(tail@ =~= list@);
            ListHead { val: val.clone(), tail }
        },
    };
    proof {
        lemma_list_view_head(&cell);
    }
    List::Head(Rc::new(cell))
}

/// The number of elements of a list, as far as `usize` can count.
pub fn list_len(list: ListRef) -> (res: usize)
    ensures
        res == clamp(list@.len()),
{
    match list {
        ListRef::Value(v) => {
            let mut it = ListIter::new(v);
            let mut n: usize = 0;
            loop
                invariant
                    list@ == v@,
                    n == clamp((v@.len() - it@.len()) as nat),
                    it@.len() <= v@.len(),
                decreases it@.len(),
            {
                match it.next() {
                    None => {
                        return n;
                    },
                    Some(_) => {
                        if n < usize::MAX {
                            n = n + 1;
                        }
                    },
                }
            }
        },
        ListRef::Source(s) => s.list.len(),
    }
}

/// Whether a list has an odd number of elements.
pub fn has_odd_length(list: &List) -> (res: bool)
    ensures
        res == (list@.len() % 2 == 1),
{
    let mut it = ListIter::new(list);
    let mut odd = false;
    loop
        invariant
            it@.len() <= list@.len(),
            odd == ((list@.len() - it@.len()) % 2 == 1),
        decreases it@.len(),
    {
        match it.next() {
            None => {
                return odd;
            },
            Some(_) => {
                odd = !odd;
            },
        }
    }
}

impl<'a> From<&'a List> for ListRef<'a> {
    fn from(that: &'a List) -> (res: ListRef<'a>) {
        ListRef::Value(that)
    }
}

impl<'a> vstd::std_specs::convert::FromSpecImpl<&'a List> for ListRef<'a> {
    open spec fn obeys_from_spec() -> bool {
        true
    }

    open spec fn from_spec(that: &'a List) -> ListRef<'a> {
        ListRef::Value(that)
    }
}

impl<'a> From<&'a source::List> for ListRef<'a> {
    fn from(that: &'a source::List) -> (res: ListRef<'a>) {
        ListRef::Source(that)
    }
}

impl<'a> vstd::std_specs::convert::FromSpecImpl<&'a source::List> for ListRef<'a> {
    open spec fn obeys_from_spec() -> bool {
        true
    }

    open spec fn from_spec(that: &'a source::List) -> ListRef<'a> {
        ListRef::Source(that)
    }
}

} // verus!
