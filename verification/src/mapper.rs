use vstd::prelude::*;

verus! {

/// An element of one of the C library's intrusive lists: a struct that holds
/// the list links as one of its fields.  `next_offset` is the offset of that
/// field from the start of the struct.
pub trait Element {
    fn next_offset() -> usize;
}

/// The address of the element whose list links are at address `links`, for
/// elements that hold their links at `offset` from their start.
pub fn get_list_item(links: usize, offset: usize) -> (item: usize)
    requires
        offset <= links,
    ensures
        item == links - offset,
{
    links - offset
}

/// The list links of the C library in memory, each node's address mapped to
/// the address in its `n` (next) field, form a ring through `head` whose
/// nodes, in order, are `nodes`: the head's next is the first node, each
/// node's next is the one after it, the last node's next is the head, and no
/// address occurs twice.
pub open spec fn is_ring(links: Map<usize, usize>, head: usize, nodes: Seq<usize>) -> bool {
    &&& links.contains_key(head)
    &&& links[head] == (if nodes.len() == 0 { head } else { nodes[0] })
    &&& forall|i: int|
        #![trigger links[nodes[i]]]
        0 <= i < nodes.len() ==> links.contains_key(nodes[i]) && links[nodes[i]] == (if i + 1
            < nodes.len() {
            nodes[i + 1]
        } else {
            head
        })
    &&& nodes.no_duplicates()
    &&& !nodes.contains(head)
}

/// The position of a walk over `links` from `head` after `k` steps: the
/// head's next, then the next of each position in turn.
pub open spec fn walk_pos(links: Map<usize, usize>, head: usize, k: nat) -> usize
    decreases k,
{
    if k == 0 {
        links[head]
    } else {
        links[walk_pos(links, head, (k - 1) as nat)]
    }
}

/// A walk over one of the C library's circular lists: it starts at the node
/// after the head and stops when it comes back to the head.
#[derive(Clone, Copy, Debug)]
pub struct ListWalk {
    head: usize,
    pos: usize,
}

impl View for ListWalk {
    type V = (usize, usize);

    /// The head of the list and the current position.
    closed spec fn view(&self) -> (usize, usize) {
        (self.head, self.pos)
    }
}

impl ListWalk {
    /// A walk over the list with head `head`, whose next field holds `first`.
    pub fn start(head: usize, first: usize) -> (w: ListWalk)
        ensures
            w@ == (head, first),
    {
        ListWalk { head, pos: first }
    }

    /// The node at the current position, or `None` when the walk is back at
    /// the head.
    pub fn current(&self) -> (r: Option<usize>)
        ensures
            r == (if self@.1 != self@.0 {
                Some(self@.1)
            } else {
                None::<usize>
            }),
    {
        if self.pos != self.head {
            Some(self.pos)
        } else {
            None
        }
    }

    /// The current position.
    pub fn current_pos(&self) -> (p: usize)
        ensures
            p == self@.1,
    {
        self.pos
    }

    /// Moves the walk to `next`, the next field of the current node.
    pub fn advance(&mut self, next: usize)
        ensures
            final(self)@ == (old(self)@.0, next),
    {
        self.pos = next;
    }
}

/// Law: a walk over a ring visits its nodes in order, each once, and comes
/// back to the head right after the last one.
pub proof fn law_walk_visits_ring(links: Map<usize, usize>, head: usize, nodes: Seq<usize>, k: nat)
    requires
        is_ring(links, head, nodes),
        k <= nodes.len(),
    ensures
        k < nodes.len() ==> walk_pos(links, head, k) == nodes[k as int] && walk_pos(
            links,
            head,
            k,
        ) != head,
        k == nodes.len() ==> walk_pos(links, head, k) == head,
    decreases k,
{
    if k > 0 {
        law_walk_visits_ring(links, head, nodes, (k - 1) as nat);
        assert(nodes[k - 1] == nodes[(k - 1) as int]);
    }
    if k < nodes.len() {
        assert(nodes.contains(nodes[k as int]));
    }
}

} // verus!
