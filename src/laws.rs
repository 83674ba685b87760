use vstd::prelude::*;

use crate::render::{shown, Render};

verus! {

/// One insertion into a list: at the front or at the back.
pub enum Push<T> {
    Front(T),
    Back(T),
}

/// The contents after `List::push_front` with each of `vs` in turn, starting
/// from `start`.
pub open spec fn front_pushes<T>(start: Seq<T>, vs: Seq<T>) -> Seq<T>
    decreases vs.len(),
{
    if vs.len() == 0 {
        start
    } else {
        seq![vs.last()] + front_pushes(start, vs.drop_last())
    }
}

/// The contents after `List::push_back` with each of `vs` in turn, starting
/// from `start`.
pub open spec fn back_pushes<T>(start: Seq<T>, vs: Seq<T>) -> Seq<T>
    decreases vs.len(),
{
    if vs.len() == 0 {
        start
    } else {
        back_pushes(start, vs.drop_last()).push(vs.last())
    }
}

/// The contents after each insertion of `ops` in turn, starting from `start`.
pub open spec fn pushes<T>(start: Seq<T>, ops: Seq<Push<T>>) -> Seq<T>
    decreases ops.len(),
{
    if ops.len() == 0 {
        start
    } else {
        let before = pushes(start, ops.drop_last());
        match ops.last() {
            Push::Front(v) => seq![v] + before,
            Push::Back(v) => before.push(v),
        }
    }
}

/// Pushing `v1, ..., vN` at the front of an empty list leaves them in
/// reverse order.
pub proof fn lemma_front_pushes_reverse<T>(vs: Seq<T>)
    ensures
        front_pushes(Seq::empty(), vs) == vs.reverse(),
    decreases vs.len(),
{
    if vs.len() > 0 {
        lemma_front_pushes_reverse(vs.drop_last());
        assert(seq![vs.last()] + vs.drop_last().reverse() =~= vs.reverse());
    } else {
        assert(vs.reverse() =~= Seq::<T>::empty());
    }
}

/// A list built by pushing `v1, ..., vN` at the front of an empty list shows
/// as `[vN, ..., v1]`.
pub proof fn lemma_front_pushes_show_reversed<T: Render>(vs: Seq<T>)
    ensures
        shown(front_pushes(Seq::empty(), vs)) == shown(vs.reverse()),
{
    lemma_front_pushes_reverse(vs);
}

/// Pushing `v1, ..., vN` at the back of an empty list keeps them in
/// insertion order.
pub proof fn lemma_back_pushes_keep_order<T>(vs: Seq<T>)
    ensures
        back_pushes(Seq::empty(), vs) == vs,
    decreases vs.len(),
{
    if vs.len() > 0 {
        lemma_back_pushes_keep_order(vs.drop_last());
        assert(vs.drop_last().push(vs.last()) =~= vs);
    } else {
        assert(vs =~= Seq::<T>::empty());
    }
}

/// A list built by pushing `v1, ..., vN` at the back of an empty list shows
/// as `[v1, ..., vN]`.
pub proof fn lemma_back_pushes_show_in_order<T: Render>(vs: Seq<T>)
    ensures
        shown(back_pushes(Seq::empty(), vs)) == shown(vs),
{
    lemma_back_pushes_keep_order(vs);
}

/// A list built from empty by any insertions holds one element for each of
/// them, so `List::traverse` visits exactly that many nodes.
pub proof fn lemma_pushes_count<T>(ops: Seq<Push<T>>)
    ensures
        pushes(Seq::empty(), ops).len() == ops.len(),
    decreases ops.len(),
{
    if ops.len() > 0 {
        lemma_pushes_count(ops.drop_last());
    }
}

} // verus!
