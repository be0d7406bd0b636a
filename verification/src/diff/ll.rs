//! The reference's linked lists, modelled just far enough to stay clear of
//! their one hazard.
//!
//! Unlinking a node that is the tail but not the head makes the node's
//! `previous` the new tail, and unlinking a node never mends the `previous` of
//! the node after it. So the tail can come to point at a freed node, and the
//! next append writes through it. [`LinkModel`] says when an append would, so
//! that a comparator can decline it: a restriction of the domain, never a
//! relaxed comparison.
use vstd::prelude::*;

verus! {

/// A list's link structure, as a value: its nodes in order, each with the node
/// that was the tail when it was added, and whether the tail dangles.
pub struct Links {
    /// `(id, previous)` per node, in list order.
    pub nodes: Seq<(u64, Option<u64>)>,
    /// Whether the tail points at a freed node.
    pub dangling: bool,
    /// How many nodes have been added so far.
    pub added: nat,
}

impl Links {
    /// A list nothing was added to.
    pub open spec fn empty() -> Links {
        Links { nodes: Seq::empty(), dangling: false, added: 0 }
    }

    /// Whether a node is on the list.
    pub open spec fn alive(self, id: u64) -> bool {
        exists|i: int| 0 <= i < self.nodes.len() && (#[trigger] self.nodes[i]).0 == id
    }

    /// Whether an append would write through a dangling tail. An empty list is
    /// rebuilt from scratch, so nothing dangles there.
    pub open spec fn hazardous(self) -> bool {
        self.dangling && self.nodes.len() > 0
    }

    /// The list with one more node at its end.
    pub open spec fn grown(self) -> Links {
        let previous = if self.nodes.len() == 0 {
            None
        } else {
            Some(self.nodes.last().0)
        };
        Links {
            nodes: self.nodes.push((self.added as u64, previous)),
            dangling: self.dangling,
            added: self.added + 1,
        }
    }

    /// Whether unlinking the node at `index` leaves the tail pointing at a
    /// freed node: it is the tail, it is not the head, and the node it was
    /// added behind is gone.
    pub open spec fn frees_the_tail(self, index: int) -> bool {
        &&& index == self.nodes.len() - 1
        &&& self.nodes.len() >= 2
        &&& match self.nodes[index].1 {
            Some(id) => !self.alive(id),
            None => true,
        }
    }

    /// The list without the node at `index`.
    pub open spec fn without(self, index: int) -> Links {
        let nodes = self.nodes.remove(index);
        Links {
            nodes,
            dangling: nodes.len() > 0 && (self.dangling || self.frees_the_tail(index)),
            added: self.added,
        }
    }

    /// Node ids are handed out in order, a node is added behind an older one,
    /// and a list with no tail has none that dangles.
    pub open spec fn well_formed(self) -> bool {
        &&& forall|i: int, j: int|
            0 <= i < j < self.nodes.len() ==> (#[trigger] self.nodes[i]).0 < (
            #[trigger] self.nodes[j]).0
        &&& forall|i: int| 0 <= i < self.nodes.len() ==> (#[trigger] self.nodes[i]).0 < self.added
        &&& forall|i: int|
            0 <= i < self.nodes.len() ==> ((#[trigger] self.nodes[i]).1 matches Some(id)
                ==> id < self.nodes[i].0)
        &&& self.nodes.len() == 0 ==> !self.dangling
    }

    /// Every node but the first still has the node it was added behind in
    /// front of it.
    pub open spec fn linked(self) -> bool {
        forall|i: int|
            1 <= i < self.nodes.len() ==> (#[trigger] self.nodes[i]).1 == Some(
                self.nodes[i - 1].0,
            )
    }
}

/// A model of one list's link structure.
///
/// Only the `previous` pointers matter, and only for the tail. Removals are
/// always defined, so [`LinkModel::add_is_undefined`] is the only question to
/// ask.
#[derive(Debug)]
pub struct LinkModel {
    nodes: Vec<(u64, Option<u64>)>,
    next_id: u64,
    tail_dangling: bool,
}

impl View for LinkModel {
    type V = Links;

    closed spec fn view(&self) -> Links {
        Links {
            nodes: self.nodes@,
            dangling: self.tail_dangling,
            added: self.next_id as nat,
        }
    }
}

impl Default for LinkModel {
    fn default() -> (r: Self)
        ensures
            r@ == Links::empty(),
    {
        LinkModel::new()
    }
}

impl LinkModel {
    /// An empty list.
    #[must_use]
    pub fn new() -> (r: Self)
        ensures
            r@ == Links::empty(),
            r@.well_formed(),
    {
        LinkModel { nodes: Vec::new(), next_id: 0, tail_dangling: false }
    }

    /// How many nodes the list holds.
    #[must_use]
    pub fn len(&self) -> (r: usize)
        ensures
            r == self@.nodes.len(),
    {
        self.nodes.len()
    }

    /// Whether the list is empty.
    #[must_use]
    pub fn is_empty(&self) -> (r: bool)
        ensures
            r == (self@.nodes.len() == 0),
    {
        self.nodes.len() == 0
    }

    /// How many nodes have been added so far.
    #[must_use]
    pub fn added(&self) -> (r: u64)
        ensures
            r == self@.added,
    {
        self.next_id
    }

    /// Whether an append right now would write through a dangling tail.
    #[must_use]
    pub fn add_is_undefined(&self) -> (r: bool)
        ensures
            r == self@.hazardous(),
    {
        self.tail_dangling && self.nodes.len() > 0
    }

    /// Append a node, which must be defined.
    pub fn add(&mut self)
        requires
            !old(self)@.hazardous(),
            old(self)@.added < u64::MAX,
        ensures
            final(self)@ == old(self)@.grown(),
            old(self)@.well_formed() ==> final(self)@.well_formed() && !final(self)@.hazardous(),
    {
        let previous = if self.nodes.len() == 0 {
            None
        } else {
            Some(self.nodes[self.nodes.len() - 1].0)
        };
        self.nodes.push((self.next_id, previous));
        self.next_id = self.next_id + 1;
    }

    /// Whether a node is on the list.
    fn contains(&self, id: u64) -> (r: bool)
        ensures
            r == self@.alive(id),
    {
        let mut i: usize = 0;
        while i < self.nodes.len()
            invariant
                i <= self.nodes@.len(),
                forall|j: int| 0 <= j < i ==> (#[trigger] self.nodes@[j]).0 != id,
            decreases self.nodes@.len() - i,
        {
            if self.nodes[i].0 == id {
                assert(self@.nodes[i as int].0 == id);
                return true;
            }
            i = i + 1;
        }
        assert(self.nodes@ =~= self@.nodes);
        false
    }

    /// Unlink the node at `index`.
    pub fn remove(&mut self, index: usize)
        requires
            index < old(self)@.nodes.len(),
        ensures
            final(self)@ == old(self)@.without(index as int),
            old(self)@.well_formed() ==> final(self)@.well_formed(),
    {
        let len = self.nodes.len();
        if index + 1 == len && len >= 2 {
            let alive = match self.nodes[index].1 {
                Some(id) => self.contains(id),
                None => false,
            };
            if !alive {
                self.tail_dangling = true;
            }
        }
        let _ = self.nodes.remove(index);
        if self.nodes.len() == 0 {
            self.tail_dangling = false;
        }
        assert(self@.nodes =~= old(self)@.nodes.remove(index as int));
    }
}

/// Appending, unlinking the head and unlinking the tail of a list whose nodes
/// are all still linked keeps them linked, and never makes the tail dangle:
/// first-in-first-out and last-in-first-out use are both safe.
pub proof fn law_use_at_the_ends_never_dangles(list: Links)
    requires
        list.well_formed(),
        list.linked(),
        !list.dangling,
    ensures
        list.grown().linked() && !list.grown().dangling,
        list.nodes.len() > 0 ==> {
            &&& list.without(0).linked()
            &&& !list.without(0).dangling
            &&& list.without(list.nodes.len() - 1).linked()
            &&& !list.without(list.nodes.len() - 1).dangling
        },
{
    if list.nodes.len() > 0 {
        let last = list.nodes.len() - 1;
        let head = list.without(0);
        assert forall|i: int| 1 <= i < head.nodes.len() implies (#[trigger] head.nodes[i]).1
            == Some(head.nodes[i - 1].0) by {
            assert(head.nodes[i] == list.nodes[i + 1]);
        }
        let tail = list.without(last);
        assert forall|i: int| 1 <= i < tail.nodes.len() implies (#[trigger] tail.nodes[i]).1
            == Some(tail.nodes[i - 1].0) by {
            assert(tail.nodes[i] == list.nodes[i]);
        }
        if list.nodes.len() >= 2 {
            assert(list.nodes[last].1 == Some(list.nodes[last - 1].0));
            assert(list.alive(list.nodes[last - 1].0));
        }
    }
}

/// Unlinking the node in front of the tail, and then the tail, makes the tail
/// dangle, as long as anything is left: nothing reads the stale pointer in
/// between.
pub proof fn law_removing_the_middle_then_the_tail_dangles_it(list: Links)
    requires
        list.well_formed(),
        list.linked(),
        !list.dangling,
        list.nodes.len() >= 3,
    ensures
        ({
            let middle = list.nodes.len() - 2;
            let once = list.without(middle);
            let twice = once.without(middle);
            !once.hazardous() && twice.hazardous()
        }),
{
    let middle = list.nodes.len() - 2;
    let once = list.without(middle);
    let gone = list.nodes[middle].0;
    assert(list.nodes[middle + 1].1 == Some(gone));
    assert(once.nodes[middle] == list.nodes[middle + 1]);
    assert(!once.alive(gone)) by {
        if once.alive(gone) {
            let i = choose|i: int| 0 <= i < once.nodes.len() && (#[trigger] once.nodes[i]).0 == gone;
            if i < middle {
                assert(once.nodes[i] == list.nodes[i]);
            } else {
                assert(once.nodes[i] == list.nodes[i + 1]);
            }
        }
    }
    if list.nodes.len() >= 2 {
        assert(!list.frees_the_tail(middle));
    }
}

/// A list that empties is safe to append to, whatever was unlinked before.
pub proof fn law_emptying_the_list_clears_the_hazard(list: Links)
    requires
        list.nodes.len() == 1,
    ensures
        !list.without(0).hazardous(),
        !list.without(0).dangling,
        list.without(0).linked(),
{
}

/// A node is added behind the last one there is, and remembers it; it has an
/// identity of its own, and nothing else about the list changes.
pub proof fn law_a_node_is_added_behind_the_last(list: Links, i: int)
    requires
        list.well_formed(),
        list.added < u64::MAX,
        0 <= i < list.nodes.len(),
    ensures
        list.grown().nodes.len() == list.nodes.len() + 1,
        list.grown().nodes[i] == list.nodes[i],
        list.grown().nodes.last().1 == Some(list.nodes.last().0),
        list.grown().nodes.last().0 != list.nodes[i].0,
        list.grown().added == list.added + 1,
        list.grown().dangling == list.dangling,
        Links::empty().grown().nodes.last().1 is None,
        Links::empty().nodes.len() == 0 && !Links::empty().dangling && Links::empty().added == 0,
        !Links::empty().hazardous(),
{
}

/// A node is alive as long as it is on the list. Taking one off leaves the
/// others as they were; the tail is left dangling exactly if the last of
/// several went and the one it was added behind is gone already, and a list
/// with nothing on it has no tail to dangle.
pub proof fn law_a_tail_dangles_once_its_neighbour_is_gone(list: Links, index: int, id: u64)
    requires
        0 <= index < list.nodes.len(),
    ensures
        list.without(index).nodes =~= list.nodes.take(index) + list.nodes.skip(index + 1),
        list.without(index).added == list.added,
        list.nodes.len() == 1 ==> !list.without(index).dangling,
        index < list.nodes.len() - 1 ==> list.without(index).dangling == list.dangling,
        list.nodes.len() >= 2 && index == list.nodes.len() - 1 && list.nodes[index].1 == Some(id)
            ==> (list.without(index).dangling <==> list.dangling || forall|i: int|
            0 <= i < list.nodes.len() ==> (#[trigger] list.nodes[i]).0 != id),
        list.nodes.len() >= 2 && index == list.nodes.len() - 1 && list.nodes[index].1 is None
            ==> list.without(index).dangling,
        list.hazardous() <==> list.dangling,
        list.alive(list.nodes[index].0),
{
}

/// Node ids ascend along the list, and each node was added behind an older one.
pub proof fn law_ids_ascend_along_the_list(list: Links, i: int, j: int)
    requires
        list.well_formed(),
        0 <= i < j < list.nodes.len(),
    ensures
        list.nodes[i].0 < list.nodes[j].0 < list.added,
        list.nodes[j].1 matches Some(id) ==> id < list.nodes[j].0,
        list.linked() && i + 1 == j ==> list.nodes[j].1 == Some(list.nodes[i].0),
{
}

} // verus!
