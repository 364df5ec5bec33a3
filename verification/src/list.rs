//! A persistent list. Copying one shares its nodes, and two lists are equal exactly when they
//! hold the same items in the same order, so the printed parts of a card (ability text, type
//! lines, filters) can be copied freely into triggers, stack entries and event records.

use std::rc::Rc;
use vstd::prelude::*;

verus! {

/// Types whose values can be told apart at run time exactly as they can in a proof.
pub trait Same: Sized {
    fn same(&self, other: &Self) -> (r: bool)
        ensures
            r == (*self == *other),
    ;
}

#[derive(Debug, PartialEq, Eq)]
pub struct List<T> {
    pub node: Option<Rc<Node<T>>>,
}

#[derive(Debug, PartialEq, Eq)]
pub struct Node<T> {
    pub item: Rc<T>,
    pub rest: List<T>,
}

/// The items of a list, first to last.
pub open spec fn list_items<T>(list: List<T>) -> Seq<T>
    decreases list,
{
    match list.node {
        None => Seq::empty(),
        Some(n) => seq![*n.item] + list_items(n.rest),
    }
}

/// The list of the given items.
pub open spec fn list_of<T>(items: Seq<T>) -> List<T>
    decreases items.len(),
{
    if items.len() == 0 {
        List { node: None }
    } else {
        List {
            node: Some(
                Rc::new(Node { item: Rc::new(items[0]), rest: list_of(items.drop_first()) }),
            ),
        }
    }
}

impl<T> View for List<T> {
    type V = Seq<T>;

    open spec fn view(&self) -> Seq<T> {
        list_items(*self)
    }
}

/// What follows the first item of a list that has one.
pub open spec fn list_rest<T>(list: List<T>) -> List<T> {
    match list.node {
        None => list,
        Some(n) => n.rest,
    }
}

/// A list is the list of its items, and the list of some items holds those items.
pub proof fn lemma_list_of<T>(list: List<T>)
    ensures
        list_of(list@) == list,
    decreases list,
{
    if list.node is Some {
        let rest = list_rest(list);
        lemma_list_of(rest);
        assert(list@.drop_first() =~= rest@);
    }
}

pub proof fn lemma_items_of<T>(items: Seq<T>)
    ensures
        list_of(items)@ == items,
    decreases items.len(),
{
    if items.len() > 0 {
        lemma_items_of(items.drop_first());
        assert(list_of(items)@ =~= items);
    }
}

proof fn lemma_contains_step<T>(list: List<T>, item: T)
    requires
        list.node is Some,
    ensures
        list@.contains(item) == (list@[0] == item || list_rest(list)@.contains(item)),
        list@[0] == *list.node->0.item,
{
    let tail = list_rest(list)@;
    assert(list@.len() == tail.len() + 1);
    if tail.contains(item) {
        let i = choose|i: int| 0 <= i < tail.len() && tail[i] == item;
        assert(list@[i + 1] == item);
    }
    if list@.contains(item) {
        let i = choose|i: int| 0 <= i < list@.len() && list@[i] == item;
        if i > 0 {
            assert(tail[i - 1] == item);
        }
    }
}

/// Two lists are equal exactly when they hold the same items in the same order.
pub proof fn law_same_items<T>(a: List<T>, b: List<T>)
    ensures
        a@ == b@ <==> a == b,
{
    lemma_list_of(a);
    lemma_list_of(b);
}

impl<T> Clone for List<T> {
    fn clone(&self) -> (r: Self)
        ensures
            r == *self,
    {
        match &self.node {
            None => List { node: None },
            Some(n) => List { node: Some(n.clone()) },
        }
    }
}

impl<T> Default for List<T> {
    fn default() -> (r: Self)
        ensures
            r == list_of::<T>(seq![]),
    {
        List { node: None }
    }
}

impl<T> List<T> {
    pub fn new() -> (r: Self)
        ensures
            r == list_of::<T>(seq![]),
            r@ == Seq::<T>::empty(),
    {
        List { node: None }
    }

    pub fn one(item: T) -> (r: Self)
        ensures
            r == list_of(seq![item]),
            r@ == seq![item],
    {
        let r = List {
            node: Some(Rc::new(Node { item: Rc::new(item), rest: List { node: None } })),
        };
        proof {
            lemma_list_of(r);
            assert(list_rest(r)@ =~= Seq::<T>::empty());
            assert(r@ =~= seq![item]);
        }
        r
    }

    pub fn from_vec(items: Vec<T>) -> (r: Self)
        ensures
            r == list_of(items@),
            r@ == items@,
    {
        let ghost all = items@;
        let mut items = items;
        let mut out: List<T> = List { node: None };
        while items.len() > 0
            invariant
                items@ + out@ == all,
            decreases items.len(),
        {
            let ghost before = out@;
            let item = items.pop().unwrap();
            out = List { node: Some(Rc::new(Node { item: Rc::new(item), rest: out })) };
            assert(out@ == seq![item] + before);
            assert(items@ + out@ =~= all);
        }
        proof {
            assert(items@ + out@ =~= out@);
            lemma_list_of(out);
        }
        out
    }

    pub fn is_empty(&self) -> (r: bool)
        ensures
            r == (self@.len() == 0),
    {
        match &self.node {
            None => true,
            Some(_) => false,
        }
    }

    /// The number of items, or `usize::MAX` where they are more than that.
    pub fn len(&self) -> (r: usize)
        ensures
            r == if self@.len() <= usize::MAX { self@.len() as int } else { usize::MAX as int },
        decreases self,
    {
        match &self.node {
            None => 0,
            Some(n) => {
                let rest: usize = n.rest.len();
                if rest == usize::MAX {
                    rest
                } else {
                    rest + 1
                }
            },
        }
    }

    pub fn get(&self, index: usize) -> (r: Option<&T>)
        ensures
            match r {
                None => index >= self@.len(),
                Some(item) => index < self@.len() && *item == self@[index as int],
            },
        decreases index,
    {
        match &self.node {
            None => None,
            Some(n) => {
                if index == 0 {
                    Some(&n.item)
                } else {
                    n.rest.get(index - 1)
                }
            },
        }
    }

    /// The list with one more item at its end, which it shares.
    pub fn with_shared(&self, item: Rc<T>) -> (r: Self)
        ensures
            r == list_of(self@.push(*item)),
            r@ == self@.push(*item),
        decreases self,
    {
        let r = match &self.node {
            None => List { node: Some(Rc::new(Node { item, rest: List { node: None } })) },
            Some(n) => List {
                node: Some(Rc::new(Node { item: n.item.clone(), rest: n.rest.with_shared(item) })),
            },
        };
        proof {
            if self.node is None {
                assert(list_rest(r)@ =~= Seq::<T>::empty());
            }
            assert(r@ =~= self@.push(*item));
            lemma_list_of(r);
        }
        r
    }

    /// The list with one more item at its end.
    pub fn with(&self, item: T) -> (r: Self)
        ensures
            r == list_of(self@.push(item)),
            r@ == self@.push(item),
    {
        self.with_shared(Rc::new(item))
    }

    /// The list with the items of another behind its own.
    pub fn join(&self, tail: List<T>) -> (r: Self)
        ensures
            r == list_of(self@ + tail@),
            r@ == self@ + tail@,
        decreases self,
    {
        let ghost items = tail@;
        let r = match &self.node {
            None => tail,
            Some(n) => List {
                node: Some(Rc::new(Node { item: n.item.clone(), rest: n.rest.join(tail) })),
            },
        };
        proof {
            assert(r@ =~= self@ + items);
            lemma_list_of(r);
        }
        r
    }

    pub fn push(&mut self, item: T)
        ensures
            *final(self) == list_of(old(self)@.push(item)),
            final(self)@ == old(self)@.push(item),
    {
        let next = self.with(item);
        *self = next;
    }
}

/// Whether two optional shared values hold the same thing is kept by copying one.
pub fn copy_rc<T>(value: &Option<Rc<T>>) -> (r: Option<Rc<T>>)
    ensures
        r == *value,
{
    match value {
        None => None,
        Some(v) => Some(v.clone()),
    }
}

impl<T: Copy> List<T> {
    fn push_onto(&self, out: &mut Vec<T>)
        ensures
            final(out)@ == old(out)@ + self@,
        decreases self,
    {
        match &self.node {
            None => {},
            Some(n) => {
                out.push(*n.item);
                n.rest.push_onto(out);
            },
        }
        assert(out@ =~= old(out)@ + self@);
    }

    pub fn to_vec(&self) -> (r: Vec<T>)
        ensures
            r@ == self@,
    {
        let mut out: Vec<T> = Vec::new();
        self.push_onto(&mut out);
        assert(out@ =~= self@);
        out
    }
}

impl<T: Same> List<T> {
    pub fn contains(&self, item: &T) -> (r: bool)
        ensures
            r == self@.contains(*item),
        decreases self,
    {
        match &self.node {
            None => false,
            Some(n) => {
                proof {
                    lemma_contains_step(*self, *item);
                }
                n.item.same(item) || n.rest.contains(item)
            },
        }
    }
}

impl<T: Same> Same for List<T> {
    fn same(&self, other: &Self) -> (r: bool)
        decreases self,
    {
        match (&self.node, &other.node) {
            (None, None) => true,
            (Some(a), Some(b)) => a.item.same(&b.item) && a.rest.same(&b.rest),
            _ => false,
        }
    }
}

impl<T: Same> Same for Option<T> {
    fn same(&self, other: &Self) -> (r: bool) {
        match (self, other) {
            (None, None) => true,
            (Some(a), Some(b)) => a.same(b),
            _ => false,
        }
    }
}

impl<A: Same, B: Same> Same for (A, B) {
    fn same(&self, other: &Self) -> (r: bool) {
        self.0.same(&other.0) && self.1.same(&other.1)
    }
}

impl Same for u32 {
    fn same(&self, other: &Self) -> (r: bool) {
        *self == *other
    }
}

impl Same for usize {
    fn same(&self, other: &Self) -> (r: bool) {
        *self == *other
    }
}

} // verus!
