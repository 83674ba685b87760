use vstd::prelude::*;

use crate::render::{joined, shown, texts, Render};

verus! {

/// An owning, nullable link to the next node of a chain.
enum Link<T> {
    Empty,
    More(Box<Node<T>>),
}

/// One link of the chain: an element and the exclusive owner of the rest.
struct Node<T> {
    elem: T,
    next: Link<T>,
}

impl<T> Link<T> {
    /// The elements of the chain that starts at this link, in order.
    spec fn elems(self) -> Seq<T>
        decreases self,
    {
        match self {
            Link::Empty => Seq::empty(),
            Link::More(node) => seq![node.elem] + node.next.elems(),
        }
    }
}

/// The chain of a list together with its length.
struct Chain<T> {
    head: Link<T>,
    len: usize,
}

impl<T> Chain<T> {
    #[verifier::type_invariant]
    spec fn counted(self) -> bool {
        self.len as nat == self.head.elems().len()
    }

    fn empty() -> (c: Self)
        ensures
            c.head.elems() == Seq::<T>::empty(),
        opens_invariants none
        no_unwind
    {
        Chain { head: Link::Empty, len: 0 }
    }
}

/// A singly-linked list whose nodes are each owned by exactly one
/// predecessor, the first by the list itself.
///
/// No second reference to the last node is kept: single ownership leaves
/// the chain reachable only from its head, so back insertion walks the
/// chain instead of appending through a tail reference.
pub struct List<T> {
    chain: Chain<T>,
}

impl<T> View for List<T> {
    type V = Seq<T>;

    closed spec fn view(&self) -> Seq<T> {
        self.chain.head.elems()
    }
}

impl<T> List<T> {
    /// Takes the chain out of the list, leaving it empty.
    fn take_chain(&mut self) -> (c: Chain<T>)
        ensures
            c.head.elems() == old(self)@,
            final(self)@ == Seq::<T>::empty(),
        opens_invariants none
        no_unwind
    {
        let mut taken = Chain::empty();
        std::mem::swap(&mut self.chain, &mut taken);
        taken
    }

    /// An empty list.
    pub fn new() -> (l: Self)
        ensures
            l@ == Seq::<T>::empty(),
    {
        List { chain: Chain::empty() }
    }

    /// The number of elements.
    pub fn len(&self) -> (n: usize)
        ensures
            n == self@.len(),
    {
        proof {
            use_type_invariant(&self.chain);
        }
        self.chain.len
    }

    /// Whether the list holds no element.
    pub fn is_empty(&self) -> (b: bool)
        ensures
            b == (self@.len() == 0),
    {
        proof {
            use_type_invariant(&self.chain);
        }
        self.chain.len == 0
    }

    /// Inserts `elem` as the new first element, in constant time.
    pub fn push_front(&mut self, elem: T)
        requires
            old(self)@.len() < usize::MAX,
        ensures
            final(self)@ == seq![elem] + old(self)@,
    {
        let taken = self.take_chain();
        proof {
            use_type_invariant(&taken);
        }
        let Chain { head, len } = taken;
        self.chain = Chain { head: Link::More(Box::new(Node { elem, next: head })), len: len + 1 };
    }

    /// Inserts `elem` as the new last element: walks from the first node to
    /// the empty link after the last one, in linear time, and attaches a new
    /// node there.
    pub fn push_back(&mut self, elem: T)
        requires
            old(self)@.len() < usize::MAX,
        ensures
            final(self)@ == old(self)@.push(elem),
    {
        let taken = self.take_chain();
        proof {
            use_type_invariant(&taken);
        }
        let Chain { head, len } = taken;
        let mut head = head;
        let ghost before = head.elems();
        let mut current = &mut head;
        let ghost mut walked: Seq<T> = Seq::empty();
        loop
            invariant
                walked + (*current).elems() == before,
                after_borrow(head).elems() == walked + (*final(current)).elems(),
            ensures
                walked == before,
                after_borrow(head).elems() == walked + (*final(current)).elems(),
            decreases (*current).elems().len(),
        {
            match *current {
                Link::More(ref mut node) => {
                    proof {
                        walked = walked.push(node.elem);
                    }
                    current = &mut node.next;
                },
                Link::Empty => {
                    assert(walked =~= before);
                    break;
                },
            }
        }
        *current = Link::More(Box::new(Node { elem, next: Link::Empty }));
        assert((*current).elems() =~= seq![elem]);
        assert(head.elems() =~= before.push(elem));
        self.chain = Chain { head, len: len + 1 };
    }

    /// Walks the whole chain from the first node to the last without
    /// changing anything, and returns the number of nodes visited.
    pub fn traverse(&self) -> (visited: usize)
        ensures
            visited == self@.len(),
    {
        proof {
            use_type_invariant(&self.chain);
        }
        let mut current = &self.chain.head;
        let mut visited: usize = 0;
        loop
            invariant
                visited + current.elems().len() == self@.len(),
                self@.len() == self.chain.len,
            decreases current.elems().len(),
        {
            match current {
                Link::Empty => {
                    return visited;
                },
                Link::More(node) => {
                    current = &node.next;
                    visited = visited + 1;
                },
            }
        }
    }

    /// Removes every element, unlinking the nodes one at a time from the
    /// front: each node hands over its successor before it is dropped, so
    /// no stack depth grows with the length of the list.
    pub fn clear(&mut self)
        ensures
            final(self)@ == Seq::<T>::empty(),
        opens_invariants none
        no_unwind
    {
        let Chain { head, len: _ } = self.take_chain();
        let mut current = head;
        loop
            invariant
                self@ == Seq::<T>::empty(),
            decreases current.elems().len(),
        {
            match current {
                Link::Empty => {
                    return ;
                },
                Link::More(node) => {
                    let Node { elem: _, next } = *node;
                    current = next;
                },
            }
        }
    }
}

impl<T: Render> List<T> {
    /// The bracketed, comma-separated text of the elements in list order,
    /// such as `[1, 2, 3]`; `[]` for an empty list.
    pub fn to_string(&self) -> (r: String)
        ensures
            r@ == shown(self@),
    {
        let ghost all = self@;
        let ghost parts = texts(all);
        let mut out = String::from_str("[");
        proof {
            use_type_invariant(&self.chain);
            reveal_strlit("[");
            assert(texts(all).subrange(0, 0) =~= Seq::<Seq<char>>::empty());
        }
        let mut current = &self.chain.head;
        let mut i: usize = 0;
        loop
            invariant
                all == self@,
                all.len() <= usize::MAX,
                parts == texts(all),
                i <= all.len(),
                current.elems() == all.subrange(i as int, all.len() as int),
                out@ == seq!['['] + joined(parts.subrange(0, i as int)),
            decreases all.len() - i,
        {
            match current {
                Link::Empty => {
                    assert(all.subrange(i as int, all.len() as int).len() == 0);
                    assert(parts.subrange(0, i as int) =~= parts);
                    out.append("]");
                    proof {
                        reveal_strlit("]");
                    }
                    assert(out@ =~= shown(all));
                    return out;
                },
                Link::More(node) => {
                    assert(current.elems() == seq![node.elem] + node.next.elems());
                    assert(i < all.len());
                    assert(all.subrange(i as int, all.len() as int)[0] == all[i as int]);
                    assert(node.elem == all[i as int]);
                    let ghost before = out@;
                    if i > 0 {
                        out.append(", ");
                    }
                    let piece = node.elem.render();
                    out.append(piece.as_str());
                    proof {
                        reveal_strlit(", ");
                        let prefix = parts.subrange(0, i + 1);
                        assert(prefix.drop_last() =~= parts.subrange(0, i as int));
                        assert(prefix.last() == node.elem.text());
                        assert(out@ =~= seq!['['] + joined(prefix));
                        let rest = all.subrange(i as int, all.len() as int);
                        assert(node.next.elems() =~= rest.subrange(1, rest.len() as int));
                        assert(rest.subrange(1, rest.len() as int) =~= all.subrange(
                            i + 1,
                            all.len() as int,
                        ));
                    }
                    current = &node.next;
                    i = i + 1;
                },
            }
        }
    }
}

impl<T> Drop for List<T> {
    /// Tears the list down iteratively (see `clear`).
    fn drop(&mut self)
        opens_invariants none
        no_unwind
    {
        self.clear();
    }
}

} // verus!
