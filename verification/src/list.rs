//! A singly linked list with owned nodes and a cached size.

use vstd::prelude::*;
use vstd::std_specs::cmp::PartialEqSpec;

verus! {

/// One list node: a value and the rest of the chain.
pub struct Node<T> {
    pub value: T,
    pub next: Option<Box<Node<T>>>,
}

/// The sequence of values hanging off `node`, front first.
pub open spec fn chain_view<T>(node: Option<Box<Node<T>>>) -> Seq<T>
    decreases node,
{
    match node {
        None => Seq::<T>::empty(),
        Some(boxed) => seq![boxed.value] + chain_view(boxed.next),
    }
}

impl<T> Node<T> {
    /// A node holding `value` in front of `next`.
    pub fn new(value: T, next: Option<Box<Node<T>>>) -> (r: Node<T>)
        ensures
            r.value == value,
            r.next == next,
    {
        Node { value, next }
    }
}

/// Appends `value` behind the last node of `opt`'s chain.
fn chain_push_tail<T>(opt: Option<Box<Node<T>>>, value: T) -> (r: Box<Node<T>>)
    ensures
        chain_view(Some(r)) == chain_view(opt).push(value),
    decreases opt,
{
    match opt {
        None => {
            let r = Box::new(Node::new(value, None));
            proof {
                assert(chain_view(Some(r)) =~= chain_view(None::<Box<Node<T>>>).push(value));
            }
            r
        },
        Some(node) => {
            let mut inner = *node;
            let rest = inner.next.take();
            let ghost rest_view = chain_view(rest);
            inner.next = Some(chain_push_tail(rest, value));
            let r = Box::new(inner);
            proof {
                assert(chain_view(Some(r)) =~= (seq![inner.value] + rest_view).push(value));
            }
            r
        },
    }
}

/// A singly linked list; its view is the sequence of values, front first.
pub struct LinkedList<T> {
    head: Option<Box<Node<T>>>,
    size: usize,
}

/// Whether `a` and `b` hold values equal under `T`'s own equality
/// specification, position by position.
pub open spec fn chain_eq_spec<T: PartialEq>(a: Seq<T>, b: Seq<T>) -> bool {
    a.len() == b.len() && forall|i: int| 0 <= i < a.len() ==> #[trigger] a[i].eq_spec(&b[i])
}

/// Two chains with equality-related heads are elementwise equal exactly when
/// their tails are.
proof fn lemma_chain_eq_cons<T: PartialEq>(xv: T, yv: T, ra: Seq<T>, rb: Seq<T>)
    requires
        xv.eq_spec(&yv),
    ensures
        chain_eq_spec(seq![xv] + ra, seq![yv] + rb) == chain_eq_spec(ra, rb),
{
    let a = seq![xv] + ra;
    let b = seq![yv] + rb;
    if chain_eq_spec(ra, rb) {
        assert forall|i: int| 0 <= i < a.len() implies #[trigger] a[i].eq_spec(&b[i]) by {
            if i == 0 {
                assert(a[0] == xv && b[0] == yv);
            } else {
                assert(a[i] == ra[i - 1] && b[i] == rb[i - 1]);
                assert(ra[i - 1].eq_spec(&rb[i - 1]));
            }
        }
    }
    if chain_eq_spec(a, b) {
        assert forall|i: int| 0 <= i < ra.len() implies #[trigger] ra[i].eq_spec(&rb[i]) by {
            assert(a[i + 1] == ra[i] && b[i + 1] == rb[i]);
            assert(a[i + 1].eq_spec(&b[i + 1]));
        }
    }
}

/// Walks both chains in step, comparing values with `T`'s equality.
fn chain_eq<T: PartialEq>(a: &Option<Box<Node<T>>>, b: &Option<Box<Node<T>>>) -> (r: bool)
    ensures
        <T as PartialEqSpec>::obeys_eq_spec() ==> r == chain_eq_spec(
            chain_view(*a),
            chain_view(*b),
        ),
    decreases a,
{
    match (a, b) {
        (None, None) => true,
        (Some(x), Some(y)) => {
            let heads_eq = x.value == y.value;
            if !heads_eq {
                proof {
                    if <T as PartialEqSpec>::obeys_eq_spec() {
                        assert(chain_view(*a)[0] == x.value && chain_view(*b)[0] == y.value);
                    }
                }
                false
            } else {
                let rest_eq = chain_eq(&x.next, &y.next);
                proof {
                    if <T as PartialEqSpec>::obeys_eq_spec() {
                        lemma_chain_eq_cons(
                            x.value,
                            y.value,
                            chain_view(x.next),
                            chain_view(y.next),
                        );
                    }
                }
                rest_eq
            }
        },
        _ => false,
    }
}

/// Clones a chain node by node with `T`'s own clone.
fn chain_clone<T: Clone>(node: &Option<Box<Node<T>>>) -> (r: Option<Box<Node<T>>>)
    ensures
        chain_view(r).len() == chain_view(*node).len(),
        forall|i: int|
            0 <= i < chain_view(*node).len() ==> cloned::<T>(
                chain_view(*node)[i],
                #[trigger] chain_view(r)[i],
            ),
    decreases node,
{
    match node {
        None => None,
        Some(x) => {
            let value = x.value.clone();
            let next = chain_clone(&x.next);
            let r = Some(Box::new(Node { value, next }));
            proof {
                let olds = chain_view(*node);
                let news = chain_view(r);
                assert(news =~= seq![value] + chain_view(next));
                assert forall|i: int| 0 <= i < olds.len() implies cloned::<T>(
                    olds[i],
                    #[trigger] news[i],
                ) by {
                    if i == 0 {
                        assert(olds[0] == x.value && news[0] == value);
                    } else {
                        assert(olds[i] == chain_view(x.next)[i - 1]);
                        assert(news[i] == chain_view(next)[i - 1]);
                    }
                }
            }
            r
        },
    }
}

impl<T> Drop for LinkedList<T> {
    /// Unlinks the chain iteratively, so dropping a very long list cannot
    /// overflow the call stack on nested node drops.
    fn drop(&mut self)
        opens_invariants none
        no_unwind
    {
        let mut current: Option<Box<Node<T>>> = None;
        core::mem::swap(&mut current, &mut self.head);
        loop
            decreases current,
        {
            match current {
                None => {
                    break;
                },
                Some(boxed) => {
                    let mut node = *boxed;
                    let mut rest: Option<Box<Node<T>>> = None;
                    core::mem::swap(&mut rest, &mut node.next);
                    current = rest;
                },
            }
        }
    }
}

impl<T: Clone> Clone for LinkedList<T> {
    /// A clone holds, in order, one clone of each value.
    fn clone(&self) -> (r: Self)
        ensures
            r@.len() == self@.len(),
            forall|i: int| 0 <= i < self@.len() ==> cloned::<T>(self@[i], #[trigger] r@[i]),
            self.wf() ==> r.wf(),
    {
        LinkedList { head: chain_clone(&self.head), size: self.size }
    }
}

impl<T: PartialEq> PartialEq for LinkedList<T> {
    /// Two lists are equal when they hold equal values in the same order.
    fn eq(&self, other: &LinkedList<T>) -> (r: bool) {
        chain_eq(&self.head, &other.head)
    }
}

impl<T: PartialEq> vstd::std_specs::cmp::PartialEqSpecImpl for LinkedList<T> {
    open spec fn obeys_eq_spec() -> bool {
        <T as PartialEqSpec>::obeys_eq_spec()
    }

    open spec fn eq_spec(&self, other: &LinkedList<T>) -> bool {
        chain_eq_spec(self@, other@)
    }
}

impl<T> View for LinkedList<T> {
    type V = Seq<T>;

    closed spec fn view(&self) -> Seq<T> {
        chain_view(self.head)
    }
}

impl<T> LinkedList<T> {
    /// The cached size always equals the chain's length.
    pub closed spec fn wf(&self) -> bool {
        self.size == chain_view(self.head).len()
    }

    /// An empty list.
    pub fn new() -> (r: LinkedList<T>)
        ensures
            r.wf(),
            r@ == Seq::<T>::empty(),
    {
        LinkedList { head: None, size: 0 }
    }

    /// How many values the list holds.
    pub fn get_size(&self) -> (r: usize)
        requires
            self.wf(),
        ensures
            r == self@.len(),
    {
        self.size
    }

    /// Whether the list holds no value.
    pub fn is_empty(&self) -> (r: bool)
        requires
            self.wf(),
        ensures
            r == (self@.len() == 0),
    {
        self.get_size() == 0
    }

    /// Puts `value` in front of every element.
    pub fn push_front(&mut self, value: T)
        requires
            old(self).wf(),
            old(self)@.len() < usize::MAX,
        ensures
            final(self).wf(),
            final(self)@ == seq![value] + old(self)@,
    {
        let head = self.head.take();
        self.head = Some(Box::new(Node::new(value, head)));
        self.size = self.size + 1;
    }

    /// Takes the front value out, if there is one.
    pub fn pop_front(&mut self) -> (r: Option<T>)
        requires
            old(self).wf(),
        ensures
            final(self).wf(),
            match r {
                Some(value) => old(self)@.len() > 0 && value == old(self)@[0] && final(self)@
                    == old(self)@.skip(1),
                None => old(self)@.len() == 0 && final(self)@ == old(self)@,
            },
    {
        match self.head.take() {
            None => None,
            Some(boxed) => {
                let node = *boxed;
                self.head = node.next;
                self.size = self.size - 1;
                proof {
                    assert(self@ =~= old(self)@.skip(1));
                }
                Some(node.value)
            },
        }
    }

    /// Appends `value` behind every element.
    pub fn push_tail(&mut self, value: T)
        requires
            old(self).wf(),
            old(self)@.len() < usize::MAX,
        ensures
            final(self).wf(),
            final(self)@ == old(self)@.push(value),
    {
        let head = self.head.take();
        self.head = Some(chain_push_tail(head, value));
        self.size = self.size + 1;
    }
}

} // verus!
