//! The chain that a bucket stores its pairs in: a singly linked list in
//! which every node owns the rest of the list.

use vstd::prelude::*;

verus! {

/// A chain of elements. A node owns its element and its tail, so a chain is
/// finite and shares nothing with any other chain.
pub enum LinkedList<T> {
    Elem(T, Box<LinkedList<T>>),
    Nil,
}

impl<T: Clone> Clone for LinkedList<T> {
    /// A chain of the same length whose elements are clones of this chain's
    /// elements, in the same order.
    fn clone(&self) -> (r: Self)
        ensures
            r@.len() == self@.len(),
            forall|i: int| 0 <= i < self@.len() ==> cloned::<T>(#[trigger] self@[i], r@[i]),
        decreases self,
    {
        match self {
            LinkedList::Elem(e, rest) => {
                let head = e.clone();
                let tail = (&**rest).clone();
                LinkedList::Elem(head, Box::new(tail))
            },
            LinkedList::Nil => LinkedList::Nil,
        }
    }
}

impl<T> View for LinkedList<T> {
    type V = Seq<T>;

    /// The elements from the head to the end.
    open spec fn view(&self) -> Seq<T>
        decreases self,
    {
        match self {
            LinkedList::Elem(e, rest) => seq![*e] + (**rest).view(),
            LinkedList::Nil => Seq::empty(),
        }
    }
}

impl<T> LinkedList<T> {
    /// What follows the first node. The empty chain is its own tail.
    pub open spec fn tail(self) -> Self {
        match self {
            LinkedList::Elem(_, rest) => *rest,
            LinkedList::Nil => LinkedList::Nil,
        }
    }

    /// This chain with `rest` in place of its tail. The empty chain has no
    /// node to keep, so the result is `rest` itself.
    pub open spec fn with_tail(self, rest: Self) -> Self {
        match self {
            LinkedList::Elem(e, _) => LinkedList::Elem(e, Box::new(rest)),
            LinkedList::Nil => rest,
        }
    }

    /// The view of the tail is the view without its first element.
    pub proof fn lemma_tail_view(self)
        ensures
            self.tail()@ == (if self@.len() > 0 {
                self@.drop_first()
            } else {
                self@
            }),
    {
    }

    /// Replacing the tail keeps the first element and swaps the rest of the view.
    pub proof fn lemma_with_tail_view(self, rest: Self)
        ensures
            self.with_tail(rest)@ == (if self@.len() > 0 {
                seq![self@[0]] + rest@
            } else {
                rest@
            }),
    {
        match self {
            LinkedList::Elem(e, old_rest) => {
                assert(self@ == seq![e] + old_rest@);
            },
            LinkedList::Nil => {},
        }
    }

    /// Follow the link of the first node.
    pub fn follow(&self) -> (r: &Self)
        ensures
            *r == self.tail(),
            r@ == (if self@.len() > 0 {
                self@.drop_first()
            } else {
                self@
            }),
    {
        proof {
            self.lemma_tail_view();
        }
        match self {
            LinkedList::Elem(_, l) => &**l,
            LinkedList::Nil => self,
        }
    }

    /// Follow the link of the first node, for writing. What is written
    /// through the result becomes the tail of this chain.
    pub fn follow_mut(&mut self) -> (r: &mut Self)
        ensures
            *r == old(self).tail(),
            *final(self) == old(self).with_tail(*final(r)),
            final(self)@ == (if old(self)@.len() > 0 {
                seq![old(self)@[0]] + final(r)@
            } else {
                final(r)@
            }),
    {
        let r = match self {
            LinkedList::Elem(_, l) => &mut **l,
            LinkedList::Nil => self,
        };
        proof {
            old(self).lemma_with_tail_view(*final(r));
        }
        r
    }

    /// Put `elem` in front of the chain.
    pub fn push(self, elem: T) -> (r: Self)
        ensures
            r == LinkedList::Elem(elem, Box::new(self)),
            r@ == seq![elem] + self@,
    {
        LinkedList::Elem(elem, Box::new(self))
    }

    /// Walk the chain from its head.
    pub fn iter<'a>(&'a self) -> (it: LinkedListIter<'a, T>)
        ensures
            it@ == self@,
    {
        LinkedListIter { ll: self }
    }

    /// Walk the chain from its head, handing out each element for writing.
    pub fn iter_mut<'a>(&'a mut self) -> (it: LinkedListIterMut<'a, T>)
        ensures
            it.ll matches Some(ll) && *ll == *old(self) && *final(ll) == *final(self),
            it.ll matches Some(ll) && ll@ == old(self)@ && final(ll)@ == final(self)@,
            it@ == old(self)@,
    {
        LinkedListIterMut { ll: Some(self) }
    }
}

/// A walk over a chain, head first.
pub struct LinkedListIter<'a, T> {
    ll: &'a LinkedList<T>,
}

impl<'a, T> LinkedListIter<'a, T> {
    /// The elements still to come.
    pub closed spec fn view(&self) -> Seq<T> {
        self.ll@
    }

    /// The next element, or `None` at the end of the chain, where the walk stays.
    pub fn next(&mut self) -> (r: Option<&'a T>)
        ensures
            old(self)@.len() == 0 ==> r is None && final(self)@ == old(self)@,
            old(self)@.len() > 0 ==> r == Some(&old(self)@[0]) && final(self)@ == old(
                self,
            )@.drop_first(),
    {
        let res = if let LinkedList::Elem(e, _) = self.ll {
            Some(e)
        } else {
            None
        };
        self.ll = self.ll.follow();
        res
    }
}

/// A walk over a chain that hands out each element for writing.
pub struct LinkedListIterMut<'a, T> {
    /// The borrow of what has not been handed out yet: `None` once the end
    /// has been reached. Contracts speak of its final value, which is why
    /// it is public.
    pub ll: Option<&'a mut LinkedList<T>>,
}

impl<'a, T> LinkedListIterMut<'a, T> {
    /// The elements still to come, as they are now.
    pub open spec fn view(&self) -> Seq<T> {
        match self.ll {
            Some(ll) => ll@,
            None => Seq::empty(),
        }
    }

    /// The next element, or `None` at the end of the chain.
    ///
    /// The chain that the walk stood on is split into the element that is
    /// handed out and the tail that the walk keeps; its final value is put
    /// together from their final values.
    pub fn next(&mut self) -> (r: Option<&'a mut T>)
        ensures
            r is Some <==> old(self)@.len() > 0,
            (match r {
                Some(e) => {
                    &&& old(self).ll matches Some(before)
                    &&& final(self).ll matches Some(after)
                    &&& *before == LinkedList::Elem(*e, Box::new(*after))
                    &&& *final(before) == LinkedList::Elem(*final(e), Box::new(*final(after)))
                    &&& before@ == seq![*e] + after@
                    &&& final(before)@ == seq![*final(e)] + final(after)@
                    &&& old(self)@ == seq![*e] + final(self)@
                },
                None => {
                    &&& final(self).ll is None
                    &&& old(self).ll matches Some(before) ==> {
                        &&& *before == LinkedList::<T>::Nil
                        &&& *final(before) == LinkedList::<T>::Nil
                        &&& before@ == Seq::<T>::empty()
                        &&& final(before)@ == Seq::<T>::empty()
                    }
                    &&& old(self)@ == Seq::<T>::empty()
                    &&& final(self)@ == Seq::<T>::empty()
                },
            }),
    {
        match self.ll.take() {
            Some(ll) => match ll {
                LinkedList::Elem(e, rest) => {
                    assert(old(self)@.len() == 1 + rest@.len());
                    self.ll = Some(&mut **rest);
                    Some(e)
                },
                LinkedList::Nil => None,
            },
            None => None,
        }
    }
}

} // verus!
