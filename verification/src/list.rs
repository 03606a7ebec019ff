use vstd::prelude::*;

verus! {

/// One element of a `List`: the payload together with the links to the
/// neighbouring slots of the owning list's arena.
///
/// The forward link `next` is the owning direction (dropping the list's
/// anchor releases the whole chain through it); `prev` only observes the
/// predecessor and never keeps it alive.  With slots held in one arena the
/// two directions are both plain indices, and the ownership discipline is
/// expressed by `List::wf` instead of by reference counting.
#[derive(Clone, Copy)]
pub struct Node<T: Copy> {
    data: T,
    prev: Option<usize>,
    next: Option<usize>,
}

/// A handle that identifies one node of a `List`.
///
/// Handles are cheap to duplicate and stay usable while their node remains
/// in the chain; `List::valid` says which handles a list currently honours.
#[derive(Clone, Copy, Debug, PartialEq, Eq, Structural)]
pub struct NodeRef {
    slot: usize,
}

/// The failure of `List::remove_node`: a list never becomes empty, so the
/// sole remaining node cannot be removed.
#[derive(Clone, Copy, Debug, PartialEq, Eq, Structural)]
pub enum ListError {
    CannotRemoveSoleNode,
}

impl ListError {
    /// The failure, said in words.
    pub fn message(&self) -> (m: &'static str)
        ensures
            m@ == "Cannot remove the only node in the list"@,
    {
        "Cannot remove the only node in the list"
    }
}

/// A doubly-linked list with at least one element.
///
/// Nodes live in the private `slots` arena and are threaded through it by
/// the `prev`/`next` indices of `Node`; `first` and `last` anchor the chain.
/// The ghost `order` records the slots of the chain from head to tail and is
/// the model every contract speaks of: the list's view is the data of those
/// slots in that order.
///
/// All mutating operations take the list exclusively (`&mut self`): that is
/// the one synchronization discipline for the anchors and the links, chosen
/// so that every structural edit — including the head/tail anchor updates of
/// `remove_node` and `insert_after` — happens under the same exclusive
/// access.
pub struct List<T: Copy> {
    slots: Vec<Option<Node<T>>>,
    first: usize,
    last: usize,
    order: Ghost<Seq<usize>>,
}

impl<T: Copy> View for List<T> {
    type V = Seq<T>;

    /// The data of the chain, head to tail.
    closed spec fn view(&self) -> Seq<T> {
        self.order@.map_values(|i: usize| self.slots@[i as int].unwrap().data)
    }
}

impl<T: Copy> List<T> {
    /// The structural invariant: the chain is non-empty, short enough for a
    /// 32-bit length, made of distinct occupied slots, anchored by `first`
    /// and `last`, and linked symmetrically — each node's `next` owns its
    /// successor and its `prev` points back at its predecessor.
    pub closed spec fn wf(self) -> bool {
        let ord = self.order@;
        &&& 1 <= ord.len() <= 0x7fff_ffff
        &&& forall|k: int| 0 <= k < ord.len() ==> (#[trigger] ord[k]) < self.slots@.len()
        &&& forall|k: int| 0 <= k < ord.len() ==> (#[trigger] self.slots@[ord[k] as int]) is Some
        &&& forall|k1: int, k2: int|
            0 <= k1 < k2 < ord.len() ==> #[trigger] ord[k1] != #[trigger] ord[k2]
        &&& self.first == ord[0]
        &&& self.last == ord[ord.len() - 1]
        &&& forall|k: int|
            0 <= k < ord.len() ==> (#[trigger] self.slots@[ord[k] as int]).unwrap().next == (
            if k + 1 < ord.len() {
                Some(ord[k + 1])
            } else {
                None
            })
        &&& forall|k: int|
            0 <= k < ord.len() ==> (#[trigger] self.slots@[ord[k] as int]).unwrap().prev == (
            if 0 < k {
                Some(ord[k - 1])
            } else {
                None
            })
    }

    /// Whether the list currently honours the handle: its node is still on
    /// the chain.
    pub closed spec fn valid(self, h: NodeRef) -> bool {
        self.order@.contains(h.slot)
    }

    /// The position of the handle's node in the chain, counted from the
    /// head; meaningful only for valid handles of a well-formed list.
    pub closed spec fn pos(self, h: NodeRef) -> int {
        self.order@.index_of(h.slot)
    }

    /// In a well-formed list the chain holds each slot at most once, so a
    /// valid handle has exactly one position.
    proof fn lemma_pos_unique(self, h: NodeRef, k: int)
        requires
            self.wf(),
            0 <= k < self.order@.len(),
            self.order@[k] == h.slot,
        ensures
            self.valid(h),
            self.pos(h) == k,
    {
        assert(self.valid(h));
        let j = self.pos(h);
        assert(0 <= j < self.order@.len() && self.order@[j] == h.slot);
        if j < k {
            assert(self.order@[j] != self.order@[k]);
        } else if k < j {
            assert(self.order@[k] != self.order@[j]);
        }
    }

    /// Builds the two-element list `[data1, data2]`.
    pub fn new(data1: T, data2: T) -> (list: List<T>)
        ensures
            list.wf(),
            list@ =~= seq![data1, data2],
    {
        let mut slots: Vec<Option<Node<T>>> = Vec::new();
        slots.push(Some(Node { data: data1, prev: None, next: Some(1) }));
        slots.push(Some(Node { data: data2, prev: Some(0), next: None }));
        let ghost ord: Seq<usize> = seq![0usize, 1usize];
        let list = List { slots, first: 0, last: 1, order: Ghost(ord) };
        assert(list.wf());
        list
    }

    /// The handle of the head node.
    pub fn first(&self) -> (h: NodeRef)
        requires
            self.wf(),
        ensures
            self.valid(h),
            self.pos(h) == 0,
    {
        let h = NodeRef { slot: self.first };
        proof {
            self.lemma_pos_unique(h, 0);
        }
        h
    }

    /// The handle of the tail node.
    pub fn last(&self) -> (h: NodeRef)
        requires
            self.wf(),
        ensures
            self.valid(h),
            self.pos(h) == self@.len() - 1,
    {
        let h = NodeRef { slot: self.last };
        proof {
            self.lemma_pos_unique(h, self.order@.len() - 1);
        }
        h
    }

    /// Reads the data of the handle's node.
    pub fn get(&self, h: &NodeRef) -> (data: T)
        requires
            self.wf(),
            self.valid(*h),
        ensures
            data == self@[self.pos(*h)],
    {
        proof {
            let k = self.pos(*h);
            assert(0 <= k < self.order@.len() && self.order@[k] == h.slot);
        }
        self.slots[h.slot].unwrap().data
    }

    /// The handle of the node after `h`, or `None` at the tail.
    pub fn next(&self, h: &NodeRef) -> (r: Option<NodeRef>)
        requires
            self.wf(),
            self.valid(*h),
        ensures
            self.pos(*h) + 1 < self@.len() ==> (r matches Some(h2) && self.valid(h2) && self.pos(
                h2,
            ) == self.pos(*h) + 1),
            self.pos(*h) + 1 == self@.len() ==> r is None,
    {
        proof {
            let k = self.pos(*h);
            assert(0 <= k < self.order@.len() && self.order@[k] == h.slot);
            assert(self.slots@[self.order@[k] as int].unwrap().next == (if k + 1
                < self.order@.len() {
                Some(self.order@[k + 1])
            } else {
                None
            }));
        }
        let node = self.slots[h.slot].unwrap();
        match node.next {
            Some(slot) => {
                let h2 = NodeRef { slot };
                proof {
                    self.lemma_pos_unique(h2, self.pos(*h) + 1);
                }
                Some(h2)
            },
            None => None,
        }
    }

    /// The handle of the node before `h`, or `None` at the head.
    pub fn prev(&self, h: &NodeRef) -> (r: Option<NodeRef>)
        requires
            self.wf(),
            self.valid(*h),
        ensures
            self.pos(*h) > 0 ==> (r matches Some(h2) && self.valid(h2) && self.pos(h2) == self.pos(
                *h,
            ) - 1),
            self.pos(*h) == 0 ==> r is None,
    {
        proof {
            let k = self.pos(*h);
            assert(0 <= k < self.order@.len() && self.order@[k] == h.slot);
            assert(self.slots@[self.order@[k] as int].unwrap().prev == (if 0 < k {
                Some(self.order@[k - 1])
            } else {
                None
            }));
        }
        let node = self.slots[h.slot].unwrap();
        match node.prev {
            Some(slot) => {
                let h2 = NodeRef { slot };
                proof {
                    self.lemma_pos_unique(h2, self.pos(*h) - 1);
                }
                Some(h2)
            },
            None => None,
        }
    }

    /// Collects the data of the whole chain, head to tail.
    pub fn to_vec(&self) -> (items: Vec<T>)
        requires
            self.wf(),
        ensures
            items@ == self@,
    {
        let ghost ord = self.order@;
        let mut items: Vec<T> = Vec::new();
        let mut cur: Option<usize> = Some(self.first);
        while cur.is_some()
            invariant
                self.wf(),
                ord == self.order@,
                items@.len() <= ord.len(),
                items@ =~= self@.subrange(0, items@.len() as int),
                cur matches Some(c) ==> items@.len() < ord.len() && c == ord[items@.len() as int],
                cur is None ==> items@.len() == ord.len(),
            decreases ord.len() - items@.len(),
        {
            let c = cur.unwrap();
            proof {
                let k = items@.len() as int;
                assert(self.slots@[ord[k] as int].unwrap().next == (if k + 1 < ord.len() {
                    Some(ord[k + 1])
                } else {
                    None
                }));
                assert(self@[k] == self.slots@[ord[k] as int].unwrap().data);
            }
            let node = self.slots[c].unwrap();
            items.push(node.data);
            cur = node.next;
        }
        proof {
            assert(items@ =~= self@);
        }
        items
    }

    /// Applies `visit` to every element, front to back, replacing each
    /// element by the function's result.  Handles keep their nodes and their
    /// positions; only the data changes.
    pub fn traverse<F: Fn(T) -> T>(&mut self, visit: F)
        requires
            old(self).wf(),
            forall|k: int|
                0 <= k < old(self)@.len() ==> call_requires(visit, (#[trigger] old(self)@[k],)),
        ensures
            final(self).wf(),
            final(self)@.len() == old(self)@.len(),
            forall|k: int|
                0 <= k < old(self)@.len() ==> call_ensures(
                    visit,
                    (old(self)@[k],),
                    #[trigger] final(self)@[k],
                ),
            forall|h: NodeRef| #[trigger] final(self).valid(h) <==> old(self).valid(h),
            forall|h: NodeRef|
                old(self).valid(h) ==> #[trigger] final(self).pos(h) == old(self).pos(h),
    {
        let ghost ord = self.order@;
        let ghost mut done: int = 0;
        let mut cur: Option<usize> = Some(self.first);
        while cur.is_some()
            invariant
                self.wf(),
                ord == self.order@,
                self.order@ == old(self).order@,
                self.slots@.len() == old(self).slots@.len(),
                forall|k: int|
                    0 <= k < old(self)@.len() ==> call_requires(
                        visit,
                        (#[trigger] old(self)@[k],),
                    ),
                0 <= done <= ord.len(),
                cur matches Some(c) ==> done < ord.len() && c == ord[done],
                cur is None ==> done == ord.len(),
                forall|k: int|
                    0 <= k < done ==> call_ensures(visit, (old(self)@[k],), #[trigger] self@[k]),
                forall|k: int| done <= k < ord.len() ==> #[trigger] self@[k] == old(self)@[k],
            decreases ord.len() - done,
        {
            let c = cur.unwrap();
            proof {
                assert(self.slots@[ord[done] as int].unwrap().next == (if done + 1 < ord.len() {
                    Some(ord[done + 1])
                } else {
                    None
                }));
                assert(self@[done] == self.slots@[ord[done] as int].unwrap().data);
            }
            let node = self.slots[c].unwrap();
            let new_data = visit(node.data);
            let ghost pre = *self;
            self.slots[c] = Some(Node { data: new_data, prev: node.prev, next: node.next });
            proof {
                assert forall|k: int| 0 <= k < ord.len() implies self.slots@[ord[k] as int]
                    == (if k == done {
                    Some(Node { data: new_data, prev: node.prev, next: node.next })
                } else {
                    pre.slots@[ord[k] as int]
                }) by {
                    if k != done {
                        assert(ord[k] != ord[done]);
                    }
                }
                assert(self.wf());
                assert forall|k: int| 0 <= k < ord.len() implies #[trigger] self@[k] == (if k
                    == done {
                    new_data
                } else {
                    pre@[k]
                }) by {}
                done = done + 1;
            }
            cur = node.next;
        }
        proof {
            assert forall|h: NodeRef| #[trigger] final(self).valid(h) <==> old(self).valid(
                h,
            ) by {}
        }
    }

    /// Creates a node holding `new_data` directly after the node of
    /// `existing`, and returns the new node's handle.
    ///
    /// The new node's `prev` observes `existing`'s node and its `next` takes
    /// over that node's old successor; when `existing` was the tail, the
    /// list's `last` anchor moves to the new node so that the tail invariant
    /// is kept.  Given a valid handle the operation always succeeds;
    /// existing handles stay valid, those at or before `existing` keep
    /// their position and the later ones shift one place towards the tail.
    #[verifier::rlimit(100)]
    pub fn insert_after(&mut self, existing: &NodeRef, new_data: T) -> (h: NodeRef)
        requires
            old(self).wf(),
            old(self).valid(*existing),
            old(self)@.len() < 0x7fff_ffff,
        ensures
            final(self).wf(),
            final(self)@ =~= old(self)@.insert(old(self).pos(*existing) + 1, new_data),
            final(self).valid(h),
            final(self).pos(h) == old(self).pos(*existing) + 1,
            forall|h2: NodeRef| old(self).valid(h2) ==> #[trigger] final(self).valid(h2),
            forall|h2: NodeRef|
                old(self).valid(h2) && old(self).pos(h2) <= old(self).pos(*existing)
                    ==> #[trigger] final(self).pos(h2) == old(self).pos(h2),
            forall|h2: NodeRef|
                old(self).valid(h2) && old(self).pos(h2) > old(self).pos(*existing)
                    ==> #[trigger] final(self).pos(h2) == old(self).pos(h2) + 1,
    {
        let ghost ord = self.order@;
        let ghost p = self.pos(*existing);
        let i = existing.slot;
        proof {
            assert(0 <= p < ord.len() && ord[p] == i);
            assert(self.slots@[ord[p] as int].unwrap().next == (if p + 1 < ord.len() {
                Some(ord[p + 1])
            } else {
                None
            }));
            assert(p + 1 < ord.len() ==> ord[p + 1] < self.slots@.len());
        }
        let node = self.slots[i].unwrap();
        let old_next = node.next;
        let new_slot = self.slots.len();
        self.slots.push(Some(Node { data: new_data, prev: Some(i), next: old_next }));
        self.slots[i] = Some(Node { data: node.data, prev: node.prev, next: Some(new_slot) });
        match old_next {
            Some(nx) => {
                let nx_node = self.slots[nx].unwrap();
                self.slots[nx] = Some(
                    Node { data: nx_node.data, prev: Some(new_slot), next: nx_node.next },
                );
            },
            None => {
                self.last = new_slot;
            },
        }
        let ghost ord2 = ord.insert(p + 1, new_slot);
        proof {
            self.order = Ghost(ord2);
            ord.insert_ensures(p + 1, new_slot);
            assert forall|k: int| 0 <= k < ord2.len() implies (#[trigger] ord2[k])
                < self.slots@.len() && ord2[k] == (if k <= p {
                ord[k]
            } else if k == p + 1 {
                new_slot
            } else {
                ord[k - 1]
            }) by {}
            assert forall|k1: int, k2: int|
                0 <= k1 < k2 < ord2.len() implies ord2[k1] != ord2[k2] by {
                assert(forall|k: int| 0 <= k < ord.len() ==> (#[trigger] ord[k]) < new_slot);
            }
            assert forall|k: int| 0 <= k < ord2.len() implies {
                &&& (#[trigger] self.slots@[ord2[k] as int]) is Some
                &&& self.slots@[ord2[k] as int].unwrap().next == (if k + 1 < ord2.len() {
                    Some(ord2[k + 1])
                } else {
                    None
                })
                &&& self.slots@[ord2[k] as int].unwrap().prev == (if 0 < k {
                    Some(ord2[k - 1])
                } else {
                    None
                })
            } by {
                if k <= p - 1 || k >= p + 3 {
                    let k0 = if k <= p - 1 {
                        k
                    } else {
                        k - 1
                    };
                    assert(ord2[k] == ord[k0]);
                    assert(ord[k0] != ord[p]);
                    assert(p + 1 < ord.len() ==> ord[k0] != ord[p + 1]);
                    assert(self.slots@[ord[k0] as int] == old(self).slots@[ord[k0] as int]);
                }
                if k == p + 2 {
                    assert(ord2[k] == ord[p + 1]);
                    assert(ord[p + 1] != ord[p]);
                }
            }
            assert(self.wf());
            let h = NodeRef { slot: new_slot };
            self.lemma_pos_unique(h, p + 1);
            assert forall|h2: NodeRef| old(self).valid(h2) implies #[trigger] self.valid(h2) by {
                let j = old(self).pos(h2);
                assert(0 <= j < ord.len() && ord[j] == h2.slot);
                if j <= p {
                    self.lemma_pos_unique(h2, j);
                } else {
                    self.lemma_pos_unique(h2, j + 1);
                }
            }
            assert forall|h2: NodeRef|
                old(self).valid(h2) && old(self).pos(h2) <= p implies #[trigger] self.pos(h2)
                == old(self).pos(h2) by {
                let j = old(self).pos(h2);
                assert(0 <= j < ord.len() && ord[j] == h2.slot);
                self.lemma_pos_unique(h2, j);
            }
            assert forall|h2: NodeRef|
                old(self).valid(h2) && old(self).pos(h2) > p implies #[trigger] self.pos(h2)
                == old(self).pos(h2) + 1 by {
                let j = old(self).pos(h2);
                assert(0 <= j < ord.len() && ord[j] == h2.slot);
                self.lemma_pos_unique(h2, j + 1);
            }
            assert forall|k: int| 0 <= k < ord2.len() implies #[trigger] self@[k] == old(
                self,
            )@.insert(p + 1, new_data)[k] by {
                old(self)@.insert_ensures(p + 1, new_data);
                if k <= p - 1 || k >= p + 2 {
                    let k0 = if k <= p - 1 {
                        k
                    } else {
                        k - 1
                    };
                    assert(ord2[k] == ord[k0]);
                    assert(self.slots@[ord[k0] as int] == (if ord[k0] == ord[p] {
                        self.slots@[ord[p] as int]
                    } else if p + 1 < ord.len() && ord[k0] == ord[p + 1] {
                        self.slots@[ord[p + 1] as int]
                    } else {
                        old(self).slots@[ord[k0] as int]
                    }));
                }
            }
        }
        NodeRef { slot: new_slot }
    }

    /// Removes the node of `node_to_remove` from the chain: the
    /// predecessor's `next` takes over the removed node's successor, the
    /// successor's `prev` its predecessor, and the `first`/`last` anchors
    /// are promoted when a boundary node goes.  Removing the sole remaining
    /// node is rejected — the list never becomes empty — and rejection
    /// leaves the list unchanged.  Removal of an interior node cannot fail.
    #[verifier::rlimit(100)]
    pub fn remove_node(&mut self, node_to_remove: &NodeRef) -> (r: Result<(), ListError>)
        requires
            old(self).wf(),
            old(self).valid(*node_to_remove),
        ensures
            final(self).wf(),
            r matches Err(e) ==> e == ListError::CannotRemoveSoleNode,
            r is Err <==> old(self)@.len() == 1,
            r is Err ==> *final(self) == *old(self),
            r is Ok ==> final(self)@ =~= old(self)@.remove(old(self).pos(*node_to_remove)),
            r is Ok ==> !final(self).valid(*node_to_remove),
            forall|h2: NodeRef|
                r is Ok && old(self).valid(h2) && h2 != *node_to_remove
                    ==> #[trigger] final(self).valid(h2),
            forall|h2: NodeRef|
                r is Ok && old(self).valid(h2) && old(self).pos(h2) < old(self).pos(*node_to_remove)
                    ==> #[trigger] final(self).pos(h2) == old(self).pos(h2),
            forall|h2: NodeRef|
                r is Ok && old(self).valid(h2) && old(self).pos(h2) > old(self).pos(*node_to_remove)
                    ==> #[trigger] final(self).pos(h2) == old(self).pos(h2) - 1,
    {
        let ghost ord = self.order@;
        let ghost p = self.pos(*node_to_remove);
        let i = node_to_remove.slot;
        proof {
            assert(0 <= p < ord.len() && ord[p] == i);
            assert(self.slots@[ord[p] as int].unwrap().next == (if p + 1 < ord.len() {
                Some(ord[p + 1])
            } else {
                None
            }));
            assert(self.slots@[ord[p] as int].unwrap().prev == (if 0 < p {
                Some(ord[p - 1])
            } else {
                None
            }));
            assert(0 < p ==> ord[p - 1] < self.slots@.len());
            assert(p + 1 < ord.len() ==> ord[p + 1] < self.slots@.len());
        }
        let node = self.slots[i].unwrap();
        let prv = node.prev;
        let nxt = node.next;
        if prv.is_none() && nxt.is_none() {
            proof {
                assert(p == 0 && p == ord.len() - 1);
            }
            return Err(ListError::CannotRemoveSoleNode);
        }
        proof {
            assert(ord.len() >= 2);
        }
        match prv {
            Some(pslot) => {
                let pnode = self.slots[pslot].unwrap();
                self.slots[pslot] = Some(Node { data: pnode.data, prev: pnode.prev, next: nxt });
            },
            None => {
                self.first = nxt.unwrap();
            },
        }
        match nxt {
            Some(nslot) => {
                proof {
                    assert(ord[p + 1] != ord[p]);
                    assert(0 < p ==> ord[p + 1] != ord[p - 1]);
                }
                let nnode = self.slots[nslot].unwrap();
                self.slots[nslot] = Some(Node { data: nnode.data, prev: prv, next: nnode.next });
            },
            None => {
                self.last = prv.unwrap();
            },
        }
        self.slots[i] = None;
        let ghost ord2 = ord.remove(p);
        proof {
            self.order = Ghost(ord2);
            ord.remove_ensures(p);
            assert forall|k: int| 0 <= k < ord2.len() implies (#[trigger] ord2[k]) == (if k < p {
                ord[k]
            } else {
                ord[k + 1]
            }) by {}
            assert forall|k: int| 0 <= k < ord2.len() implies (#[trigger] ord2[k])
                < self.slots@.len() by {}
            assert forall|k1: int, k2: int|
                0 <= k1 < k2 < ord2.len() implies ord2[k1] != ord2[k2] by {}
            assert forall|k: int| 0 <= k < ord2.len() implies {
                &&& (#[trigger] self.slots@[ord2[k] as int]) is Some
                &&& self.slots@[ord2[k] as int].unwrap().next == (if k + 1 < ord2.len() {
                    Some(ord2[k + 1])
                } else {
                    None
                })
                &&& self.slots@[ord2[k] as int].unwrap().prev == (if 0 < k {
                    Some(ord2[k - 1])
                } else {
                    None
                })
                &&& self.slots@[ord2[k] as int].unwrap().data == old(self).slots@[ord2[k] as int].unwrap().data
            } by {
                let s0 = if k < p {
                    k
                } else {
                    k + 1
                };
                assert(ord2[k] == ord[s0]);
                assert(ord[s0] != ord[p]);
                if s0 != p - 1 && s0 != p + 1 {
                    assert(0 < p ==> ord[s0] != ord[p - 1]);
                    assert(p + 1 < ord.len() ==> ord[s0] != ord[p + 1]);
                    assert(self.slots@[ord[s0] as int] == old(self).slots@[ord[s0] as int]);
                }
            }
            assert(self.wf());
            assert forall|h2: NodeRef|
                old(self).valid(h2) && h2 != *node_to_remove implies #[trigger] self.valid(
                h2,
            ) by {
                let j = old(self).pos(h2);
                assert(0 <= j < ord.len() && ord[j] == h2.slot);
                assert(j != p);
                if j < p {
                    self.lemma_pos_unique(h2, j);
                } else {
                    self.lemma_pos_unique(h2, j - 1);
                }
            }
            assert forall|h2: NodeRef|
                old(self).valid(h2) && old(self).pos(h2) < p implies #[trigger] self.pos(h2)
                == old(self).pos(h2) by {
                let j = old(self).pos(h2);
                assert(0 <= j < ord.len() && ord[j] == h2.slot);
                self.lemma_pos_unique(h2, j);
            }
            assert forall|h2: NodeRef|
                old(self).valid(h2) && old(self).pos(h2) > p implies #[trigger] self.pos(h2)
                == old(self).pos(h2) - 1 by {
                let j = old(self).pos(h2);
                assert(0 <= j < ord.len() && ord[j] == h2.slot);
                self.lemma_pos_unique(h2, j - 1);
            }
            assert(!self.valid(*node_to_remove)) by {
                if ord2.contains(i) {
                    let j = choose|j: int| 0 <= j < ord2.len() && ord2[j] == i;
                    let s0 = if j < p {
                        j
                    } else {
                        j + 1
                    };
                    assert(ord[s0] == i == ord[p] && s0 != p);
                }
            }
            assert forall|k: int| 0 <= k < ord2.len() implies #[trigger] self@[k] == old(
                self,
            )@.remove(p)[k] by {
                old(self)@.remove_ensures(p);
            }
        }
        Ok(())
    }

    /// Counts the nodes by walking the chain from the head along `next`.
    pub fn len(&self) -> (n: i32)
        requires
            self.wf(),
        ensures
            n == self@.len(),
    {
        let ghost ord = self.order@;
        let mut count: i32 = 0;
        let mut cur: Option<usize> = Some(self.first);
        while cur.is_some()
            invariant
                self.wf(),
                ord == self.order@,
                0 <= count <= ord.len(),
                cur matches Some(c) ==> count < ord.len() && c == ord[count as int],
                cur is None ==> count == ord.len(),
            decreases ord.len() - count,
        {
            let c = cur.unwrap();
            proof {
                let k = count as int;
                assert(self.slots@[ord[k] as int].unwrap().next == (if k + 1 < ord.len() {
                    Some(ord[k + 1])
                } else {
                    None
                }));
            }
            let node = self.slots[c].unwrap();
            count = count + 1;
            cur = node.next;
        }
        count
    }
}

/// Law: one traversal and then a second traversal, each transforming every
/// element by `f`, leave the same view as a single traversal that applies
/// `f` twice to each element.  (`List::traverse` pins the view to
/// `map_values(f)` whenever the visit function's own contract pins its
/// result to the transformation `f`.)
pub proof fn lemma_traverse_twice<T>(s: Seq<T>, f: spec_fn(T) -> T)
    ensures
        s.map_values(f).map_values(f) =~= s.map_values(|x: T| f(f(x))),
{
    assert forall|k: int| 0 <= k < s.len() implies s.map_values(f).map_values(f)[k]
        == s.map_values(|x: T| f(f(x)))[k] by {}
}

/// The view after `n` complete traversals that each add one to every
/// element, starting from `s`.
pub open spec fn bumped(s: Seq<int>, n: nat) -> Seq<int>
    decreases n,
{
    if n == 0 {
        s
    } else {
        bumped(s, (n - 1) as nat).map_values(|x: int| x + 1)
    }
}

/// Law: `n` complete traversals that each add one to every element leave
/// every element increased by exactly `n` — no update is lost.  Each node's
/// updates are serialized against each other, so this is the view after any
/// schedule of `n` whole-list visits.
pub proof fn lemma_repeated_bumps(s: Seq<int>, n: nat)
    ensures
        bumped(s, n).len() == s.len(),
        forall|k: int| 0 <= k < s.len() ==> #[trigger] bumped(s, n)[k] == s[k] + n,
    decreases n,
{
    if n != 0 {
        lemma_repeated_bumps(s, (n - 1) as nat);
    }
}

/// Law: inserting an element at a position and then removing it again
/// restores the original sequence and length.  `insert_after` on a handle
/// at position `p` yields the view `s.insert(p + 1, v)` and hands back a
/// handle at position `p + 1`; `remove_node` on that handle then yields
/// `s.insert(p + 1, v).remove(p + 1)`, which this law says is `s` itself.
pub proof fn lemma_insert_then_remove_round_trip<T>(s: Seq<T>, i: int, v: T)
    requires
        0 <= i <= s.len(),
    ensures
        s.insert(i, v).remove(i) =~= s,
        s.insert(i, v).len() == s.len() + 1,
{
    s.insert_ensures(i, v);
    s.insert(i, v).remove_ensures(i);
    assert forall|k: int| 0 <= k < s.len() implies s.insert(i, v).remove(i)[k] == s[k] by {
        if k >= i {
            assert(s.insert(i, v)[k + 1] == s[k]);
        }
    }
}

} // verus!
