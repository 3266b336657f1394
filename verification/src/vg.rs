use vstd::prelude::*;
use vstd::utf8::*;
use crate::context::{Error, Failure, FailureView, reported_error};
use crate::cstring::{c_text, text_from_c};
use crate::mapper::{ListWalk, get_list_item, is_ring};

verus! {

/// A volume group, known by its name.
#[derive(Debug)]
pub struct VolumeGroup {
    name: String,
}

impl View for VolumeGroup {
    type V = Seq<char>;

    closed spec fn view(&self) -> Seq<char> {
        self.name@
    }
}

impl VolumeGroup {
    /// The volume group with the given name.
    pub fn new(name: String) -> (g: VolumeGroup)
        ensures
            g@ == name@,
    {
        VolumeGroup { name }
    }

    /// The name of the volume group.
    pub fn name(&self) -> (n: &str)
        ensures
            n@ == self@,
    {
        self.name.as_str()
    }
}

/// The names of a sequence of volume groups.
pub open spec fn group_names(groups: Seq<VolumeGroup>) -> Seq<Seq<char>> {
    groups.map_values(|g: VolumeGroup| g@)
}

/// What the listing of volume groups asks of the C library next.
#[derive(Clone, Copy, PartialEq, Eq, Structural, Debug)]
pub enum VgRequest {
    /// Scan the system for volume groups (`lvm_scan`).
    Scan,
    /// Read the error number and message of the last error (`lvm_errno`,
    /// `lvm_errmsg`).
    FetchError,
    /// Ask for the list of volume group names (`lvm_list_vg_names`).
    ListNames,
    /// Read the next field of the list links at address `node`.
    ReadNext { node: usize },
    /// Read the C string that the name list element at address `item`
    /// points to.
    ReadText { item: usize },
}

/// What the C library answered to a [`VgRequest`].
#[derive(Debug)]
pub enum VgEvent {
    /// The status that scanning returned.
    Scanned { status: i32 },
    /// The number and the C string message of the last error.
    ErrorFetched { errno: i32, msg: Vec<u8> },
    /// The address of the list of names; 0 when there is none.
    Listed { list: usize },
    /// The next field of the list links that were read.
    NextRead { next: usize },
    /// The bytes of the C string that was read.
    TextRead { text: Vec<u8> },
}

/// A [`VgEvent`] with its bytes taken as sequences.
pub enum VgEventView {
    Scanned { status: i32 },
    ErrorFetched { errno: i32, msg: Seq<u8> },
    Listed { list: usize },
    NextRead { next: usize },
    TextRead { text: Seq<u8> },
}

impl View for VgEvent {
    type V = VgEventView;

    open spec fn view(&self) -> VgEventView {
        match self {
            VgEvent::Scanned { status } => VgEventView::Scanned { status: *status },
            VgEvent::ErrorFetched { errno, msg } => VgEventView::ErrorFetched {
                errno: *errno,
                msg: msg@,
            },
            VgEvent::Listed { list } => VgEventView::Listed { list: *list },
            VgEvent::NextRead { next } => VgEventView::NextRead { next: *next },
            VgEvent::TextRead { text } => VgEventView::TextRead { text: text@ },
        }
    }
}

/// Where the listing of volume groups stands.
pub enum VgPhase {
    Scanning,
    FetchingScanError,
    Listing,
    FetchingListError,
    /// The list with head `head` is known; its head's next field is asked for.
    ReadingHead { head: usize },
    /// The walk stands at node `pos`, whose element is at `item`; the node's
    /// next field is asked for.
    ReadingNext { head: usize, pos: usize, item: usize, groups: Seq<Seq<char>> },
    /// The walk stands at node `pos`, whose next field is `next`; the name of
    /// its element at `item` is asked for.
    ReadingText { head: usize, pos: usize, item: usize, next: usize, groups: Seq<Seq<char>> },
}

/// The state of the listing of volume groups: the offset of the list links
/// within a name list element, and the phase.
pub struct VgState {
    pub offset: usize,
    pub phase: VgPhase,
}

/// The outcome of one step of the listing of volume groups.
pub enum VgOutcome {
    Continue(VgState),
    Finished(Seq<Seq<char>>),
    Failed(FailureView),
}

/// The request that a state of the listing makes.
pub open spec fn vg_request(s: VgState) -> VgRequest {
    match s.phase {
        VgPhase::Scanning => VgRequest::Scan,
        VgPhase::FetchingScanError => VgRequest::FetchError,
        VgPhase::Listing => VgRequest::ListNames,
        VgPhase::FetchingListError => VgRequest::FetchError,
        VgPhase::ReadingHead { head } => VgRequest::ReadNext { node: head },
        VgPhase::ReadingNext { pos, .. } => VgRequest::ReadNext { node: pos },
        VgPhase::ReadingText { item, .. } => VgRequest::ReadText { item },
    }
}

/// The outcome of the walk arriving at `pos` with the groups found so far:
/// done when it is back at the head, stopped when the element's address
/// would fall below zero, and otherwise asking for the node's next field.
pub open spec fn vg_arrive(offset: usize, head: usize, pos: usize, groups: Seq<Seq<char>>) -> VgOutcome {
    if pos == head {
        VgOutcome::Finished(groups)
    } else if pos < offset {
        VgOutcome::Failed(FailureView::AddressUnderflow)
    } else {
        VgOutcome::Continue(
            VgState {
                offset,
                phase: VgPhase::ReadingNext { head, pos, item: (pos - offset) as usize, groups },
            },
        )
    }
}

/// One step of the listing of volume groups: the state `s` receives the
/// answer `e` to its request.  An answer of another kind than the request
/// asked for leaves the state as it is.
pub open spec fn vg_step(s: VgState, e: VgEventView) -> VgOutcome {
    let offset: usize = s.offset;
    let same = VgOutcome::Continue(s);
    match s.phase {
        VgPhase::Scanning => match e {
            VgEventView::Scanned { status } => if status != 0 {
                VgOutcome::Continue(VgState { offset, phase: VgPhase::FetchingScanError })
            } else {
                VgOutcome::Continue(VgState { offset, phase: VgPhase::Listing })
            },
            _ => same,
        },
        VgPhase::FetchingScanError => match e {
            VgEventView::ErrorFetched { errno, msg } => match reported_error(errno, msg) {
                Some(err) => VgOutcome::Failed(FailureView::ScanFailed(err)),
                None => VgOutcome::Failed(FailureView::InvalidErrorMessage),
            },
            _ => same,
        },
        VgPhase::Listing => match e {
            VgEventView::Listed { list } => if list == 0 {
                VgOutcome::Continue(VgState { offset, phase: VgPhase::FetchingListError })
            } else {
                VgOutcome::Continue(VgState { offset, phase: VgPhase::ReadingHead { head: list } })
            },
            _ => same,
        },
        VgPhase::FetchingListError => match e {
            VgEventView::ErrorFetched { errno, msg } => match reported_error(errno, msg) {
                Some(err) => VgOutcome::Failed(FailureView::VgListFailed(err)),
                None => VgOutcome::Failed(FailureView::InvalidErrorMessage),
            },
            _ => same,
        },
        VgPhase::ReadingHead { head } => match e {
            VgEventView::NextRead { next } => vg_arrive(offset, head, next, Seq::empty()),
            _ => same,
        },
        VgPhase::ReadingNext { head, pos, item, groups } => match e {
            VgEventView::NextRead { next } => VgOutcome::Continue(
                VgState { offset, phase: VgPhase::ReadingText { head, pos, item, next, groups } },
            ),
            _ => same,
        },
        VgPhase::ReadingText { head, pos, item, next, groups } => match e {
            VgEventView::TextRead { text } => if valid_utf8(c_text(text)) {
                vg_arrive(offset, head, next, groups.push(decode_utf8(c_text(text))))
            } else {
                VgOutcome::Failed(FailureView::InvalidVgName)
            },
            _ => same,
        },
    }
}

} // verus!

verus! {

enum Phase {
    Scanning,
    FetchingScanError,
    Listing,
    FetchingListError,
    ReadingHead { head: usize },
    ReadingNext { walk: ListWalk, item: usize, groups: Vec<VolumeGroup> },
    ReadingText { walk: ListWalk, item: usize, next: usize, groups: Vec<VolumeGroup> },
}

impl Phase {
    spec fn view(&self) -> VgPhase {
        match self {
            Phase::Scanning => VgPhase::Scanning,
            Phase::FetchingScanError => VgPhase::FetchingScanError,
            Phase::Listing => VgPhase::Listing,
            Phase::FetchingListError => VgPhase::FetchingListError,
            Phase::ReadingHead { head } => VgPhase::ReadingHead { head: *head },
            Phase::ReadingNext { walk, item, groups } => VgPhase::ReadingNext {
                head: walk@.0,
                pos: walk@.1,
                item: *item,
                groups: group_names(groups@),
            },
            Phase::ReadingText { walk, item, next, groups } => VgPhase::ReadingText {
                head: walk@.0,
                pos: walk@.1,
                item: *item,
                next: *next,
                groups: group_names(groups@),
            },
        }
    }
}

/// The listing of the volume groups of the system, as a machine that the
/// caller drives: each step takes the C library's answer to the last request
/// and gives the next request, the volume groups found, or why the listing
/// stops.
pub struct VgListing {
    offset: usize,
    phase: Phase,
}

impl View for VgListing {
    type V = VgState;

    closed spec fn view(&self) -> VgState {
        VgState { offset: self.offset, phase: self.phase.view() }
    }
}

/// The result of one step of a [`VgListing`].
pub enum VgStep {
    /// The listing goes on with this request.
    Continue(VgListing, VgRequest),
    /// The listing is done; these are the volume groups, in list order.
    Finished(Vec<VolumeGroup>),
    /// The listing stops.
    Failed(Failure),
}

impl VgStep {
    /// Whether this result is the outcome `o`, a continuing machine making
    /// the request of its state.
    pub open spec fn is_outcome(&self, o: VgOutcome) -> bool {
        match self {
            VgStep::Continue(m, req) => o == VgOutcome::Continue(m@) && *req == vg_request(m@),
            VgStep::Finished(groups) => o == VgOutcome::Finished(group_names(groups@)),
            VgStep::Failed(f) => o == VgOutcome::Failed(f@),
        }
    }
}

impl VgListing {
    /// Starts a listing whose name list elements hold their list links at
    /// `offset`; its first request is a scan.
    pub fn start(offset: usize) -> (r: (VgListing, VgRequest))
        ensures
            r.0@ == (VgState { offset, phase: VgPhase::Scanning }),
            r.1 == VgRequest::Scan,
    {
        (VgListing { offset, phase: Phase::Scanning }, VgRequest::Scan)
    }

    /// The request that the listing makes in its present state.
    pub fn request(&self) -> (r: VgRequest)
        ensures
            r == vg_request(self@),
    {
        match &self.phase {
            Phase::Scanning => VgRequest::Scan,
            Phase::FetchingScanError => VgRequest::FetchError,
            Phase::Listing => VgRequest::ListNames,
            Phase::FetchingListError => VgRequest::FetchError,
            Phase::ReadingHead { head } => VgRequest::ReadNext { node: *head },
            Phase::ReadingNext { walk, .. } => VgRequest::ReadNext { node: walk.current_pos() },
            Phase::ReadingText { item, .. } => VgRequest::ReadText { item: *item },
        }
    }

    fn resume(offset: usize, phase: Phase) -> (r: VgStep)
        ensures
            r.is_outcome(VgOutcome::Continue(VgState { offset, phase: phase.view() })),
    {
        let m = VgListing { offset, phase };
        let req = m.request();
        VgStep::Continue(m, req)
    }

    fn arrive(offset: usize, walk: ListWalk, groups: Vec<VolumeGroup>) -> (r: VgStep)
        ensures
            r.is_outcome(vg_arrive(offset, walk@.0, walk@.1, group_names(groups@))),
    {
        match walk.current() {
            None => VgStep::Finished(groups),
            Some(pos) => {
                if pos < offset {
                    VgStep::Failed(Failure::AddressUnderflow)
                } else {
                    let item: usize = get_list_item(pos, offset);
                    Self::resume(offset, Phase::ReadingNext { walk, item, groups })
                }
            },
        }
    }

    /// One step: the listing receives `event`, the C library's answer to its
    /// last request.
    pub fn step(self, event: VgEvent) -> (r: VgStep)
        ensures
            r.is_outcome(vg_step(self@, event@)),
    {
        let offset: usize = self.offset;
        match (self.phase, event) {
            (Phase::Scanning, VgEvent::Scanned { status }) => {
                if status != 0 {
                    Self::resume(offset, Phase::FetchingScanError)
                } else {
                    Self::resume(offset, Phase::Listing)
                }
            },
            (Phase::FetchingScanError, VgEvent::ErrorFetched { errno, msg }) => {
                match Error::from_c(errno, msg) {
                    Some(err) => VgStep::Failed(Failure::ScanFailed(err)),
                    None => VgStep::Failed(Failure::InvalidErrorMessage),
                }
            },
            (Phase::Listing, VgEvent::Listed { list }) => {
                if list == 0 {
                    Self::resume(offset, Phase::FetchingListError)
                } else {
                    Self::resume(offset, Phase::ReadingHead { head: list })
                }
            },
            (Phase::FetchingListError, VgEvent::ErrorFetched { errno, msg }) => {
                match Error::from_c(errno, msg) {
                    Some(err) => VgStep::Failed(Failure::VgListFailed(err)),
                    None => VgStep::Failed(Failure::InvalidErrorMessage),
                }
            },
            (Phase::ReadingHead { head }, VgEvent::NextRead { next }) => {
                let groups: Vec<VolumeGroup> = Vec::new();
                proof {
                    assert(group_names(groups@) =~= Seq::<Seq<char>>::empty());
                }
                Self::arrive(offset, ListWalk::start(head, next), groups)
            },
            (Phase::ReadingNext { walk, item, groups }, VgEvent::NextRead { next }) => {
                Self::resume(offset, Phase::ReadingText { walk, item, next, groups })
            },
            (Phase::ReadingText { walk, item, next, groups }, VgEvent::TextRead { text }) => {
                match text_from_c(text) {
                    Some(name) => {
                        let mut groups = groups;
                        let ghost before = groups@;
                        groups.push(VolumeGroup::new(name));
                        proof {
                            assert(group_names(groups@) =~= group_names(before).push(name@));
                        }
                        let mut walk = walk;
                        walk.advance(next);
                        Self::arrive(offset, walk, groups)
                    },
                    None => VgStep::Failed(Failure::InvalidVgName),
                }
            },
            (phase, _) => Self::resume(offset, phase),
        }
    }
}

} // verus!

verus! {

/// What the C library holds, as far as the listing of volume groups reads
/// it: the status that scanning returns, the last error, the address of the
/// list of names (0 for none), the next field of each list node, and the C
/// string that each name list element points to.
pub struct VgWorld {
    pub scan_status: i32,
    pub errno: i32,
    pub errmsg: Seq<u8>,
    pub list: usize,
    pub links: Map<usize, usize>,
    pub texts: Map<usize, Seq<u8>>,
}

/// The answer of the world `w` to request `r`.
pub open spec fn vg_answer(w: VgWorld, r: VgRequest) -> VgEventView {
    match r {
        VgRequest::Scan => VgEventView::Scanned { status: w.scan_status },
        VgRequest::FetchError => VgEventView::ErrorFetched { errno: w.errno, msg: w.errmsg },
        VgRequest::ListNames => VgEventView::Listed { list: w.list },
        VgRequest::ReadNext { node } => VgEventView::NextRead { next: w.links[node] },
        VgRequest::ReadText { item } => VgEventView::TextRead { text: w.texts[item] },
    }
}

/// The outcome of driving the listing from outcome `o` for at most `fuel`
/// more steps against the world `w`.
#[verifier::opaque]
pub open spec fn vg_run(w: VgWorld, o: VgOutcome, fuel: nat) -> VgOutcome
    decreases fuel,
{
    match o {
        VgOutcome::Continue(s) => if fuel == 0 {
            o
        } else {
            vg_run(w, vg_step(s, vg_answer(w, vg_request(s))), (fuel - 1) as nat)
        },
        _ => o,
    }
}

/// The start of a listing whose elements hold their links at `offset`.
pub open spec fn vg_start(offset: usize) -> VgOutcome {
    VgOutcome::Continue(VgState { offset, phase: VgPhase::Scanning })
}

/// The names that a world holds for the nodes `nodes`, decoded from the C
/// strings of their elements.
pub open spec fn vg_world_names(w: VgWorld, offset: usize, nodes: Seq<usize>) -> Seq<Seq<char>> {
    Seq::new(nodes.len(), |i: int| decode_utf8(c_text(w.texts[(nodes[i] - offset) as usize])))
}

/// Every node of `nodes` lies at or above `offset`, and the C string of its
/// element is valid UTF-8.
pub open spec fn vg_world_readable(w: VgWorld, offset: usize, nodes: Seq<usize>) -> bool {
    forall|i: int|
        #![trigger nodes[i]]
        0 <= i < nodes.len() ==> offset <= nodes[i] && valid_utf8(
            c_text(w.texts[(nodes[i] - offset) as usize]),
        )
}

proof fn lemma_vg_walk(w: VgWorld, offset: usize, nodes: Seq<usize>, k: nat)
    requires
        is_ring(w.links, w.list, nodes),
        vg_world_readable(w, offset, nodes),
        k <= nodes.len(),
    ensures
        vg_run(
            w,
            vg_arrive(
                offset,
                w.list,
                if k < nodes.len() {
                    nodes[k as int]
                } else {
                    w.list
                },
                vg_world_names(w, offset, nodes).take(k as int),
            ),
            (2 * (nodes.len() - k)) as nat,
        ) == VgOutcome::Finished(vg_world_names(w, offset, nodes)),
    decreases nodes.len() - k,
{
    reveal(vg_run);
    let names = vg_world_names(w, offset, nodes);
    let head: usize = w.list;
    if k == nodes.len() {
        assert(names.take(k as int) =~= names);
    } else {
        let pos: usize = nodes[k as int];
        assert(nodes.contains(pos));
        let item: usize = (pos - offset) as usize;
        let groups = names.take(k as int);
        let s1 = VgState { offset, phase: VgPhase::ReadingNext { head, pos, item, groups } };
        let next: usize = w.links[pos];
        let s2 = VgState { offset, phase: VgPhase::ReadingText { head, pos, item, next, groups } };
        let fuel: nat = (2 * (nodes.len() - k)) as nat;
        assert(vg_arrive(offset, head, pos, groups) == VgOutcome::Continue(s1));
        assert(vg_step(s1, vg_answer(w, vg_request(s1))) == VgOutcome::Continue(s2));
        let after: usize = if k + 1 < nodes.len() {
            nodes[k + 1 as int]
        } else {
            head
        };
        assert(next == after);
        assert(groups.push(names[k as int]) =~= names.take(k + 1 as int));
        assert(vg_step(s2, vg_answer(w, vg_request(s2))) == vg_arrive(
            offset,
            head,
            next,
            names.take(k + 1 as int),
        ));
        lemma_vg_walk(w, offset, nodes, (k + 1) as nat);
        assert(vg_run(w, VgOutcome::Continue(s2), (fuel - 1) as nat) == vg_run(
            w,
            vg_arrive(offset, head, next, names.take(k + 1 as int)),
            (fuel - 2) as nat,
        ));
    }
}

/// Law: when scanning succeeds and the C library gives a list of names that
/// forms a ring whose elements all hold valid names, the listing finishes
/// with the volume groups of those names, in list order, after one step for
/// the scan, one for the list, one for the list head and two for each node.
pub proof fn law_vg_lists_ring(w: VgWorld, offset: usize, nodes: Seq<usize>)
    requires
        w.scan_status == 0,
        w.list != 0,
        is_ring(w.links, w.list, nodes),
        vg_world_readable(w, offset, nodes),
    ensures
        vg_run(w, vg_start(offset), (3 + 2 * nodes.len()) as nat) == VgOutcome::Finished(
            vg_world_names(w, offset, nodes),
        ),
{
    reveal(vg_run);
    let head: usize = w.list;
    let s0 = VgState { offset, phase: VgPhase::Scanning };
    let s1 = VgState { offset, phase: VgPhase::Listing };
    let s2 = VgState { offset, phase: VgPhase::ReadingHead { head } };
    let first: usize = if 0 < nodes.len() {
        nodes[0]
    } else {
        head
    };
    assert(vg_world_names(w, offset, nodes).take(0) =~= Seq::<Seq<char>>::empty());
    lemma_vg_walk(w, offset, nodes, 0);
    let fuel: nat = (3 + 2 * nodes.len()) as nat;
    assert(vg_step(s0, vg_answer(w, vg_request(s0))) == VgOutcome::Continue(s1));
    assert(vg_step(s1, vg_answer(w, vg_request(s1))) == VgOutcome::Continue(s2));
    assert(vg_step(s2, vg_answer(w, vg_request(s2))) == vg_arrive(offset, head, first, Seq::empty()));
    assert(vg_run(w, VgOutcome::Continue(s2), (fuel - 2) as nat) == vg_run(
        w,
        vg_arrive(offset, head, first, Seq::empty()),
        (fuel - 3) as nat,
    ));
    assert(vg_run(w, VgOutcome::Continue(s1), (fuel - 1) as nat) == vg_run(
        w,
        VgOutcome::Continue(s2),
        (fuel - 2) as nat,
    ));
}

/// Law: when scanning fails, the listing stops after asking for the error,
/// with that error, or because its message is not valid UTF-8.
pub proof fn law_vg_scan_failure(w: VgWorld, offset: usize)
    requires
        w.scan_status != 0,
    ensures
        valid_utf8(c_text(w.errmsg)) ==> vg_run(w, vg_start(offset), 2) == VgOutcome::Failed(
            FailureView::ScanFailed((w.errno, decode_utf8(c_text(w.errmsg)))),
        ),
        !valid_utf8(c_text(w.errmsg)) ==> vg_run(w, vg_start(offset), 2) == VgOutcome::Failed(
            FailureView::InvalidErrorMessage,
        ),
{
    reveal(vg_run);
    let s1 = VgState { offset, phase: VgPhase::FetchingScanError };
    assert(vg_run(w, VgOutcome::Continue(s1), 1) == vg_run(w, vg_step(s1, vg_answer(w, vg_request(s1))), 0));
}

/// Law: when scanning succeeds but the C library gives no list of names, the
/// listing stops after asking for the error, with that error, or because its
/// message is not valid UTF-8.
pub proof fn law_vg_list_failure(w: VgWorld, offset: usize)
    requires
        w.scan_status == 0,
        w.list == 0,
    ensures
        valid_utf8(c_text(w.errmsg)) ==> vg_run(w, vg_start(offset), 3) == VgOutcome::Failed(
            FailureView::VgListFailed((w.errno, decode_utf8(c_text(w.errmsg)))),
        ),
        !valid_utf8(c_text(w.errmsg)) ==> vg_run(w, vg_start(offset), 3) == VgOutcome::Failed(
            FailureView::InvalidErrorMessage,
        ),
{
    reveal(vg_run);
    let s1 = VgState { offset, phase: VgPhase::Listing };
    let s2 = VgState { offset, phase: VgPhase::FetchingListError };
    assert(vg_run(w, VgOutcome::Continue(s2), 1) == vg_run(w, vg_step(s2, vg_answer(w, vg_request(s2))), 0));
    assert(vg_run(w, VgOutcome::Continue(s1), 2) == vg_run(w, VgOutcome::Continue(s2), 1));
}

} // verus!

verus! {

/// The node at step `k` of a walk over `nodes`: the `k`-th node, or the head
/// once all nodes are passed.
pub open spec fn ring_at(head: usize, nodes: Seq<usize>, k: nat) -> usize {
    if k < nodes.len() {
        nodes[k as int]
    } else {
        head
    }
}

/// The node `node` lies at or above `offset`, and the C string of its
/// element is valid UTF-8.
pub open spec fn vg_node_readable(w: VgWorld, offset: usize, node: usize) -> bool {
    offset <= node && valid_utf8(c_text(w.texts[(node - offset) as usize]))
}

/// The walk at step `k` of a listing over `nodes`, with the names of the
/// steps before it.
#[verifier::opaque]
spec fn vg_at_step(w: VgWorld, offset: usize, nodes: Seq<usize>, k: nat) -> VgOutcome {
    vg_arrive(
        offset,
        w.list,
        ring_at(w.list, nodes, k),
        vg_world_names(w, offset, nodes).take(k as int),
    )
}

proof fn lemma_vg_node_step(w: VgWorld, offset: usize, nodes: Seq<usize>, k: nat, f: nat)
    requires
        is_ring(w.links, w.list, nodes),
        k < nodes.len(),
        offset <= nodes[k as int],
        valid_utf8(c_text(w.texts[(nodes[k as int] - offset) as usize])),
    ensures
        vg_run(w, vg_at_step(w, offset, nodes, k), f + 2) == vg_run(
            w,
            vg_at_step(w, offset, nodes, (k + 1) as nat),
            f,
        ),
{
    reveal(vg_run);
    let names = vg_world_names(w, offset, nodes);
    let head: usize = w.list;
    let pos: usize = nodes[k as int];
    assert(nodes.contains(pos));
    let item: usize = (pos - offset) as usize;
    let groups = names.take(k as int);
    let s1 = VgState { offset, phase: VgPhase::ReadingNext { head, pos, item, groups } };
    let next: usize = w.links[pos];
    let s2 = VgState { offset, phase: VgPhase::ReadingText { head, pos, item, next, groups } };
    reveal(vg_at_step);
    assert(vg_at_step(w, offset, nodes, k) == VgOutcome::Continue(s1));
    assert(vg_step(s1, vg_answer(w, vg_request(s1))) == VgOutcome::Continue(s2));
    assert(next == ring_at(head, nodes, (k + 1) as nat));
    assert(groups.push(names[k as int]) =~= names.take(k + 1 as int));
    assert(vg_step(s2, vg_answer(w, vg_request(s2))) == vg_at_step(w, offset, nodes, (k + 1) as nat));
    assert(vg_run(w, VgOutcome::Continue(s2), f + 1) == vg_run(
        w,
        vg_at_step(w, offset, nodes, (k + 1) as nat),
        f,
    ));
}

proof fn lemma_vg_walk_prefix(w: VgWorld, offset: usize, nodes: Seq<usize>, k: nat, j: nat, f: nat)
    requires
        is_ring(w.links, w.list, nodes),
        k <= j <= nodes.len(),
        forall|i: int| k <= i < j ==> #[trigger] vg_node_readable(w, offset, nodes[i]),
    ensures
        vg_run(w, vg_at_step(w, offset, nodes, k), (2 * (j - k) + f) as nat) == vg_run(
            w,
            vg_at_step(w, offset, nodes, j),
            f,
        ),
    decreases j - k,
{
    if k < j {
        let rest: nat = (2 * (j - (k + 1)) + f) as nat;
        assert(vg_node_readable(w, offset, nodes[k as int]));
        lemma_vg_node_step(w, offset, nodes, k, rest);
        lemma_vg_walk_prefix(w, offset, nodes, (k + 1) as nat, j, f);
        assert((2 * (j - k) + f) as nat == rest + 2);
    }
}

proof fn lemma_vg_reaches_list(w: VgWorld, offset: usize, f: nat)
    requires
        w.scan_status == 0,
        w.list != 0,
    ensures
        vg_run(w, vg_start(offset), (3 + f) as nat) == vg_run(
            w,
            vg_arrive(offset, w.list, w.links[w.list], Seq::empty()),
            f,
        ),
{
    reveal(vg_run);
    let head: usize = w.list;
    let s0 = VgState { offset, phase: VgPhase::Scanning };
    let s1 = VgState { offset, phase: VgPhase::Listing };
    let s2 = VgState { offset, phase: VgPhase::ReadingHead { head } };
    let fuel: nat = (3 + f) as nat;
    assert(vg_step(s0, vg_answer(w, vg_request(s0))) == VgOutcome::Continue(s1));
    assert(vg_step(s1, vg_answer(w, vg_request(s1))) == VgOutcome::Continue(s2));
    assert(vg_run(w, VgOutcome::Continue(s2), (fuel - 2) as nat) == vg_run(
        w,
        vg_arrive(offset, head, w.links[head], Seq::empty()),
        (fuel - 3) as nat,
    ));
    assert(vg_run(w, VgOutcome::Continue(s1), (fuel - 1) as nat) == vg_run(
        w,
        VgOutcome::Continue(s2),
        (fuel - 2) as nat,
    ));
}

/// Law: when the name of the `j`-th volume group in the list is not valid
/// UTF-8 and all names before it are, the listing stops with
/// `InvalidVgName` right after reading that name, whatever follows it.
pub proof fn law_vg_stops_at_invalid_name(w: VgWorld, offset: usize, nodes: Seq<usize>, j: nat)
    requires
        w.scan_status == 0,
        w.list != 0,
        is_ring(w.links, w.list, nodes),
        j < nodes.len(),
        forall|i: int| 0 <= i < j ==> #[trigger] vg_node_readable(w, offset, nodes[i]),
        offset <= nodes[j as int],
        !valid_utf8(c_text(w.texts[(nodes[j as int] - offset) as usize])),
    ensures
        vg_run(w, vg_start(offset), (3 + 2 * j + 2) as nat) == VgOutcome::Failed(
            FailureView::InvalidVgName,
        ),
{
    let names = vg_world_names(w, offset, nodes);
    let head: usize = w.list;
    assert(names.take(0) =~= Seq::<Seq<char>>::empty());
    assert(w.links[head] == ring_at(head, nodes, 0));
    lemma_vg_reaches_list(w, offset, (2 * j + 2) as nat);
    assert(vg_at_step(w, offset, nodes, 0) == vg_arrive(offset, head, w.links[head], Seq::empty()))
        by {
        reveal(vg_at_step);
    }
    lemma_vg_walk_prefix(w, offset, nodes, 0, j, 2);
    let pos: usize = nodes[j as int];
    assert(nodes.contains(pos));
    let item: usize = (pos - offset) as usize;
    let groups = names.take(j as int);
    let s1 = VgState { offset, phase: VgPhase::ReadingNext { head, pos, item, groups } };
    let next: usize = w.links[pos];
    let s2 = VgState { offset, phase: VgPhase::ReadingText { head, pos, item, next, groups } };
    assert(vg_at_step(w, offset, nodes, j) == VgOutcome::Continue(s1)) by {
        reveal(vg_at_step);
    }
    assert(vg_step(s1, vg_answer(w, vg_request(s1))) == VgOutcome::Continue(s2));
    assert(vg_step(s2, vg_answer(w, vg_request(s2))) == VgOutcome::Failed(
        FailureView::InvalidVgName,
    ));
    assert(vg_run(w, VgOutcome::Continue(s1), 2) == VgOutcome::Failed(FailureView::InvalidVgName))
        by {
        reveal(vg_run);
        assert(vg_run(w, VgOutcome::Continue(s2), 1) == vg_run(
            w,
            VgOutcome::Failed(FailureView::InvalidVgName),
            0,
        ));
    }
}

/// Law: when the `j`-th node of the list lies below the offset of the links
/// within their element, and all nodes before it are readable, the listing
/// stops with `AddressUnderflow` on arriving at that node, before reading it.
pub proof fn law_vg_stops_below_offset(w: VgWorld, offset: usize, nodes: Seq<usize>, j: nat)
    requires
        w.scan_status == 0,
        w.list != 0,
        is_ring(w.links, w.list, nodes),
        j < nodes.len(),
        forall|i: int| 0 <= i < j ==> #[trigger] vg_node_readable(w, offset, nodes[i]),
        nodes[j as int] < offset,
    ensures
        vg_run(w, vg_start(offset), (3 + 2 * j) as nat) == VgOutcome::Failed(
            FailureView::AddressUnderflow,
        ),
{
    let names = vg_world_names(w, offset, nodes);
    let head: usize = w.list;
    assert(names.take(0) =~= Seq::<Seq<char>>::empty());
    assert(w.links[head] == ring_at(head, nodes, 0));
    lemma_vg_reaches_list(w, offset, (2 * j) as nat);
    assert(vg_at_step(w, offset, nodes, 0) == vg_arrive(offset, head, w.links[head], Seq::empty()))
        by {
        reveal(vg_at_step);
    }
    lemma_vg_walk_prefix(w, offset, nodes, 0, j, 0);
    assert(nodes.contains(nodes[j as int]));
    assert(vg_at_step(w, offset, nodes, j) == VgOutcome::Failed(FailureView::AddressUnderflow))
        by {
        reveal(vg_at_step);
    }
    assert(vg_run(w, VgOutcome::Failed(FailureView::AddressUnderflow), 0) == VgOutcome::Failed(
        FailureView::AddressUnderflow,
    )) by {
        reveal(vg_run);
    }
}

} // verus!
