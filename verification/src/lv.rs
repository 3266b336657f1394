use vstd::prelude::*;
use vstd::utf8::*;
use vstd::string::*;
use crate::context::{Error, Failure, FailureView, Mode, mode_letter, reported_error};
use crate::cstring::{c_text, has_nul, lemma_c_text_prefix, text_from_c, to_c_string};
use crate::mapper::{ListWalk, get_list_item, is_ring};
use crate::vg::ring_at;
use crate::vg::VolumeGroup;

verus! {

/// A logical volume: the name of its volume group and its own name.
#[derive(Debug)]
pub struct LogicalVolume {
    group: String,
    name: String,
}

impl View for LogicalVolume {
    type V = (Seq<char>, Seq<char>);

    closed spec fn view(&self) -> (Seq<char>, Seq<char>) {
        (self.group@, self.name@)
    }
}

impl LogicalVolume {
    /// The logical volume `name` of the volume group `group`.
    pub fn new(group: String, name: String) -> (v: LogicalVolume)
        ensures
            v@ == (group@, name@),
    {
        LogicalVolume { group, name }
    }

    /// The name of the volume group of the logical volume.
    pub fn group(&self) -> (g: &str)
        ensures
            g@ == self@.0,
    {
        self.group.as_str()
    }

    /// The name of the logical volume.
    pub fn name(&self) -> (n: &str)
        ensures
            n@ == self@.1,
    {
        self.name.as_str()
    }
}

/// The views of a sequence of logical volumes.
pub open spec fn volume_views(vols: Seq<LogicalVolume>) -> Seq<(Seq<char>, Seq<char>)> {
    vols.map_values(|v: LogicalVolume| v@)
}

/// What the listing of logical volumes asks of the C library next.
#[derive(Debug)]
pub enum LvRequest {
    /// Open the volume group with the C string name `name` in the mode
    /// given by the C string `mode` (`lvm_vg_open`).
    OpenGroup { name: Vec<u8>, mode: Vec<u8> },
    /// Ask for the list of logical volumes of the open group
    /// (`lvm_vg_list_lvs`).
    ListVolumes,
    /// Read the error number and message of the last error.
    FetchError,
    /// Read the next field of the list links at address `node`.
    ReadNext { node: usize },
    /// Read the C string that the list element at address `item` points to:
    /// the identifier of a logical volume.
    ReadUuid { item: usize },
    /// Look up the logical volume of the identifier that the list element at
    /// address `item` points to (`lvm_lv_from_uuid`), and read its name
    /// (`lvm_lv_get_name`).
    LookupName { item: usize },
}

/// An [`LvRequest`] with its bytes taken as sequences.
pub enum LvRequestView {
    OpenGroup { name: Seq<u8>, mode: Seq<u8> },
    ListVolumes,
    FetchError,
    ReadNext { node: usize },
    ReadUuid { item: usize },
    LookupName { item: usize },
}

impl View for LvRequest {
    type V = LvRequestView;

    open spec fn view(&self) -> LvRequestView {
        match self {
            LvRequest::OpenGroup { name, mode } => LvRequestView::OpenGroup {
                name: name@,
                mode: mode@,
            },
            LvRequest::ListVolumes => LvRequestView::ListVolumes,
            LvRequest::FetchError => LvRequestView::FetchError,
            LvRequest::ReadNext { node } => LvRequestView::ReadNext { node: *node },
            LvRequest::ReadUuid { item } => LvRequestView::ReadUuid { item: *item },
            LvRequest::LookupName { item } => LvRequestView::LookupName { item: *item },
        }
    }
}

/// What the C library answered to an [`LvRequest`].
#[derive(Debug)]
pub enum LvEvent {
    /// The volume group was opened.
    Opened,
    /// The address of the list of logical volumes; 0 when there is none.
    Listed { list: usize },
    /// The number and the C string message of the last error.
    ErrorFetched { errno: i32, msg: Vec<u8> },
    /// The next field of the list links that were read.
    NextRead { next: usize },
    /// The bytes of the identifier that was read.
    UuidRead { text: Vec<u8> },
    /// The bytes of the name that was read.
    NameRead { text: Vec<u8> },
}

/// An [`LvEvent`] with its bytes taken as sequences.
pub enum LvEventView {
    Opened,
    Listed { list: usize },
    ErrorFetched { errno: i32, msg: Seq<u8> },
    NextRead { next: usize },
    UuidRead { text: Seq<u8> },
    NameRead { text: Seq<u8> },
}

impl View for LvEvent {
    type V = LvEventView;

    open spec fn view(&self) -> LvEventView {
        match self {
            LvEvent::Opened => LvEventView::Opened,
            LvEvent::Listed { list } => LvEventView::Listed { list: *list },
            LvEvent::ErrorFetched { errno, msg } => LvEventView::ErrorFetched {
                errno: *errno,
                msg: msg@,
            },
            LvEvent::NextRead { next } => LvEventView::NextRead { next: *next },
            LvEvent::UuidRead { text } => LvEventView::UuidRead { text: text@ },
            LvEvent::NameRead { text } => LvEventView::NameRead { text: text@ },
        }
    }
}

/// Where the listing of logical volumes stands.
pub enum LvPhase {
    /// The group with the C string name `name_c` is to be opened.
    Opening { name_c: Seq<u8> },
    Listing,
    FetchingListError,
    ReadingHead { head: usize },
    ReadingNext { head: usize, pos: usize, item: usize, vols: Seq<(Seq<char>, Seq<char>)> },
    ReadingUuid {
        head: usize,
        pos: usize,
        item: usize,
        next: usize,
        vols: Seq<(Seq<char>, Seq<char>)>,
    },
    ReadingName {
        head: usize,
        pos: usize,
        item: usize,
        next: usize,
        vols: Seq<(Seq<char>, Seq<char>)>,
    },
}

/// The state of the listing of logical volumes: the offset of the list links
/// within a list element, the name of the volume group, and the phase.
pub struct LvState {
    pub offset: usize,
    pub group: Seq<char>,
    pub phase: LvPhase,
}

/// The outcome of one step of the listing of logical volumes.
pub enum LvOutcome {
    Continue(LvState),
    Finished(Seq<(Seq<char>, Seq<char>)>),
    Failed(FailureView),
}

/// The request that a state of the listing makes.  Groups are opened for
/// reading.
pub open spec fn lv_request(s: LvState) -> LvRequestView {
    match s.phase {
        LvPhase::Opening { name_c } => LvRequestView::OpenGroup {
            name: name_c,
            mode: seq![mode_letter(Mode::Read), 0u8],
        },
        LvPhase::Listing => LvRequestView::ListVolumes,
        LvPhase::FetchingListError => LvRequestView::FetchError,
        LvPhase::ReadingHead { head } => LvRequestView::ReadNext { node: head },
        LvPhase::ReadingNext { pos, .. } => LvRequestView::ReadNext { node: pos },
        LvPhase::ReadingUuid { item, .. } => LvRequestView::ReadUuid { item },
        LvPhase::ReadingName { item, .. } => LvRequestView::LookupName { item },
    }
}

/// The start of a listing of the logical volumes of the group named `group`,
/// whose list elements hold their links at `offset`: it opens the group by
/// its name as a C string, and stops at once when the name holds a NUL byte.
pub open spec fn lv_start(group: Seq<char>, offset: usize) -> LvOutcome {
    if has_nul(encode_utf8(group)) {
        LvOutcome::Failed(FailureView::InvalidGroupName)
    } else {
        LvOutcome::Continue(
            LvState {
                offset,
                group,
                phase: LvPhase::Opening { name_c: encode_utf8(group).push(0u8) },
            },
        )
    }
}

/// The outcome of the walk arriving at `pos` with the volumes found so far.
pub open spec fn lv_arrive(
    offset: usize,
    group: Seq<char>,
    head: usize,
    pos: usize,
    vols: Seq<(Seq<char>, Seq<char>)>,
) -> LvOutcome {
    if pos == head {
        LvOutcome::Finished(vols)
    } else if pos < offset {
        LvOutcome::Failed(FailureView::AddressUnderflow)
    } else {
        LvOutcome::Continue(
            LvState {
                offset,
                group,
                phase: LvPhase::ReadingNext { head, pos, item: (pos - offset) as usize, vols },
            },
        )
    }
}

/// One step of the listing of logical volumes: the state `s` receives the
/// answer `e` to its request.  An answer of another kind than the request
/// asked for leaves the state as it is.
pub open spec fn lv_step(s: LvState, e: LvEventView) -> LvOutcome {
    let offset: usize = s.offset;
    let group = s.group;
    let same = LvOutcome::Continue(s);
    match s.phase {
        LvPhase::Opening { .. } => match e {
            LvEventView::Opened => LvOutcome::Continue(
                LvState { offset, group, phase: LvPhase::Listing },
            ),
            _ => same,
        },
        LvPhase::Listing => match e {
            LvEventView::Listed { list } => if list == 0 {
                LvOutcome::Continue(LvState { offset, group, phase: LvPhase::FetchingListError })
            } else {
                LvOutcome::Continue(
                    LvState { offset, group, phase: LvPhase::ReadingHead { head: list } },
                )
            },
            _ => same,
        },
        LvPhase::FetchingListError => match e {
            LvEventView::ErrorFetched { errno, msg } => match reported_error(errno, msg) {
                Some(err) => LvOutcome::Failed(FailureView::LvListFailed(err)),
                None => LvOutcome::Failed(FailureView::InvalidErrorMessage),
            },
            _ => same,
        },
        LvPhase::ReadingHead { head } => match e {
            LvEventView::NextRead { next } => lv_arrive(offset, group, head, next, Seq::empty()),
            _ => same,
        },
        LvPhase::ReadingNext { head, pos, item, vols } => match e {
            LvEventView::NextRead { next } => LvOutcome::Continue(
                LvState {
                    offset,
                    group,
                    phase: LvPhase::ReadingUuid { head, pos, item, next, vols },
                },
            ),
            _ => same,
        },
        LvPhase::ReadingUuid { head, pos, item, next, vols } => match e {
            LvEventView::UuidRead { text } => if valid_utf8(c_text(text)) {
                LvOutcome::Continue(
                    LvState {
                        offset,
                        group,
                        phase: LvPhase::ReadingName { head, pos, item, next, vols },
                    },
                )
            } else {
                LvOutcome::Failed(FailureView::InvalidLvUuid)
            },
            _ => same,
        },
        LvPhase::ReadingName { head, pos, item, next, vols } => match e {
            LvEventView::NameRead { text } => if valid_utf8(c_text(text)) {
                lv_arrive(offset, group, head, next, vols.push((group, decode_utf8(c_text(text)))))
            } else {
                LvOutcome::Failed(FailureView::InvalidLvName)
            },
            _ => same,
        },
    }
}

} // verus!

verus! {

enum Phase {
    Opening { name_c: Vec<u8> },
    Listing,
    FetchingListError,
    ReadingHead { head: usize },
    ReadingNext { walk: ListWalk, item: usize, vols: Vec<LogicalVolume> },
    ReadingUuid { walk: ListWalk, item: usize, next: usize, vols: Vec<LogicalVolume> },
    ReadingName { walk: ListWalk, item: usize, next: usize, vols: Vec<LogicalVolume> },
}

impl Phase {
    spec fn view(&self) -> LvPhase {
        match self {
            Phase::Opening { name_c } => LvPhase::Opening { name_c: name_c@ },
            Phase::Listing => LvPhase::Listing,
            Phase::FetchingListError => LvPhase::FetchingListError,
            Phase::ReadingHead { head } => LvPhase::ReadingHead { head: *head },
            Phase::ReadingNext { walk, item, vols } => LvPhase::ReadingNext {
                head: walk@.0,
                pos: walk@.1,
                item: *item,
                vols: volume_views(vols@),
            },
            Phase::ReadingUuid { walk, item, next, vols } => LvPhase::ReadingUuid {
                head: walk@.0,
                pos: walk@.1,
                item: *item,
                next: *next,
                vols: volume_views(vols@),
            },
            Phase::ReadingName { walk, item, next, vols } => LvPhase::ReadingName {
                head: walk@.0,
                pos: walk@.1,
                item: *item,
                next: *next,
                vols: volume_views(vols@),
            },
        }
    }
}

/// The listing of the logical volumes of one volume group, as a machine that
/// the caller drives: each step takes the C library's answer to the last
/// request and gives the next request, the logical volumes found, or why the
/// listing stops.
pub struct LvListing {
    offset: usize,
    group: String,
    phase: Phase,
}

impl View for LvListing {
    type V = LvState;

    closed spec fn view(&self) -> LvState {
        LvState { offset: self.offset, group: self.group@, phase: self.phase.view() }
    }
}

/// The result of one step of an [`LvListing`].
pub enum LvStep {
    /// The listing goes on with this request.
    Continue(LvListing, LvRequest),
    /// The listing is done; these are the logical volumes, in list order.
    Finished(Vec<LogicalVolume>),
    /// The listing stops.
    Failed(Failure),
}

impl LvStep {
    /// Whether this result is the outcome `o`, a continuing machine making
    /// the request of its state.
    pub open spec fn is_outcome(&self, o: LvOutcome) -> bool {
        match self {
            LvStep::Continue(m, req) => o == LvOutcome::Continue(m@) && req@ == lv_request(m@),
            LvStep::Finished(vols) => o == LvOutcome::Finished(volume_views(vols@)),
            LvStep::Failed(f) => o == LvOutcome::Failed(f@),
        }
    }
}

impl LvListing {
    /// Starts a listing of the logical volumes of `group`, whose list
    /// elements hold their links at `offset`.  A group name that holds a NUL
    /// byte stops it at once, with the position of the first NUL byte.
    pub fn start(group: &VolumeGroup, offset: usize) -> (r: LvStep)
        ensures
            r.is_outcome(lv_start(group@, offset)),
            r is Failed <==> has_nul(encode_utf8(group@)),
            r matches LvStep::Continue(m, req) ==> {
                &&& m@.group == group@
                &&& req matches LvRequest::OpenGroup { name, mode }
                &&& name@ == encode_utf8(group@).push(0u8)
                &&& mode@ == seq![0x72u8, 0u8]
            },
            r matches LvStep::Failed(Failure::InvalidGroupName(e)) ==> {
                &&& 0 <= e.position() < encode_utf8(group@).len()
                &&& encode_utf8(group@)[e.position() as int] == 0u8
                &&& forall|i: int| 0 <= i < e.position() ==> encode_utf8(group@)[i] != 0u8
            },
    {
        let name = group.name();
        match to_c_string(name) {
            Err(e) => {
                proof {
                    assert(has_nul(encode_utf8(group@)));
                }
                LvStep::Failed(Failure::InvalidGroupName(e))
            },
            Ok(name_c) => {
                let group_name = String::from_str(name);
                Self::resume(offset, group_name, Phase::Opening { name_c })
            },
        }
    }

    /// The request that the listing makes in its present state.
    pub fn request(&self) -> (r: LvRequest)
        ensures
            r@ == lv_request(self@),
    {
        match &self.phase {
            Phase::Opening { name_c } => {
                let name = name_c.clone();
                assert(name@ =~= name_c@);
                LvRequest::OpenGroup { name, mode: Mode::Read.to_c_string() }
            },
            Phase::Listing => LvRequest::ListVolumes,
            Phase::FetchingListError => LvRequest::FetchError,
            Phase::ReadingHead { head } => LvRequest::ReadNext { node: *head },
            Phase::ReadingNext { walk, .. } => LvRequest::ReadNext { node: walk.current_pos() },
            Phase::ReadingUuid { item, .. } => LvRequest::ReadUuid { item: *item },
            Phase::ReadingName { item, .. } => LvRequest::LookupName { item: *item },
        }
    }

    fn resume(offset: usize, group: String, phase: Phase) -> (r: LvStep)
        ensures
            r.is_outcome(LvOutcome::Continue(LvState { offset, group: group@, phase: phase.view() })),
    {
        let m = LvListing { offset, group, phase };
        let req = m.request();
        LvStep::Continue(m, req)
    }

    fn arrive(offset: usize, group: String, walk: ListWalk, vols: Vec<LogicalVolume>) -> (r: LvStep)
        ensures
            r.is_outcome(lv_arrive(offset, group@, walk@.0, walk@.1, volume_views(vols@))),
    {
        match walk.current() {
            None => LvStep::Finished(vols),
            Some(pos) => {
                if pos < offset {
                    LvStep::Failed(Failure::AddressUnderflow)
                } else {
                    let item: usize = get_list_item(pos, offset);
                    Self::resume(offset, group, Phase::ReadingNext { walk, item, vols })
                }
            },
        }
    }

    /// One step: the listing receives `event`, the C library's answer to its
    /// last request.
    pub fn step(self, event: LvEvent) -> (r: LvStep)
        ensures
            r.is_outcome(lv_step(self@, event@)),
    {
        let offset: usize = self.offset;
        let group = self.group;
        match (self.phase, event) {
            (Phase::Opening { .. }, LvEvent::Opened) => {
                Self::resume(offset, group, Phase::Listing)
            },
            (Phase::Listing, LvEvent::Listed { list }) => {
                if list == 0 {
                    Self::resume(offset, group, Phase::FetchingListError)
                } else {
                    Self::resume(offset, group, Phase::ReadingHead { head: list })
                }
            },
            (Phase::FetchingListError, LvEvent::ErrorFetched { errno, msg }) => {
                match Error::from_c(errno, msg) {
                    Some(err) => LvStep::Failed(Failure::LvListFailed(err)),
                    None => LvStep::Failed(Failure::InvalidErrorMessage),
                }
            },
            (Phase::ReadingHead { head }, LvEvent::NextRead { next }) => {
                let vols: Vec<LogicalVolume> = Vec::new();
                proof {
                    assert(volume_views(vols@) =~= Seq::<(Seq<char>, Seq<char>)>::empty());
                }
                Self::arrive(offset, group, ListWalk::start(head, next), vols)
            },
            (Phase::ReadingNext { walk, item, vols }, LvEvent::NextRead { next }) => {
                Self::resume(offset, group, Phase::ReadingUuid { walk, item, next, vols })
            },
            (Phase::ReadingUuid { walk, item, next, vols }, LvEvent::UuidRead { text }) => {
                match text_from_c(text) {
                    Some(_uuid) => {
                        Self::resume(offset, group, Phase::ReadingName { walk, item, next, vols })
                    },
                    None => LvStep::Failed(Failure::InvalidLvUuid),
                }
            },
            (Phase::ReadingName { walk, item, next, vols }, LvEvent::NameRead { text }) => {
                match text_from_c(text) {
                    Some(name) => {
                        let mut vols = vols;
                        let ghost before = vols@;
                        let vol_group = group.clone();
                        vols.push(LogicalVolume::new(vol_group, name));
                        proof {
                            assert(volume_views(vols@) =~= volume_views(before).push(
                                (group@, name@),
                            ));
                        }
                        let mut walk = walk;
                        walk.advance(next);
                        Self::arrive(offset, group, walk, vols)
                    },
                    None => LvStep::Failed(Failure::InvalidLvName),
                }
            },
            (phase, _) => Self::resume(offset, group, phase),
        }
    }
}

} // verus!

verus! {

/// What the C library holds, as far as the listing of logical volumes reads
/// it: the address of the list of logical volumes (0 for none), the last
/// error, the next field of each list node, and for each list element the
/// identifier it points to and the name of the logical volume of that
/// identifier.
pub struct LvWorld {
    pub list: usize,
    pub errno: i32,
    pub errmsg: Seq<u8>,
    pub links: Map<usize, usize>,
    pub uuids: Map<usize, Seq<u8>>,
    pub names: Map<usize, Seq<u8>>,
}

/// The answer of the world `w` to request `r`.
pub open spec fn lv_answer(w: LvWorld, r: LvRequestView) -> LvEventView {
    match r {
        LvRequestView::OpenGroup { .. } => LvEventView::Opened,
        LvRequestView::ListVolumes => LvEventView::Listed { list: w.list },
        LvRequestView::FetchError => LvEventView::ErrorFetched { errno: w.errno, msg: w.errmsg },
        LvRequestView::ReadNext { node } => LvEventView::NextRead { next: w.links[node] },
        LvRequestView::ReadUuid { item } => LvEventView::UuidRead { text: w.uuids[item] },
        LvRequestView::LookupName { item } => LvEventView::NameRead { text: w.names[item] },
    }
}

/// The outcome of driving the listing from outcome `o` for at most `fuel`
/// more steps against the world `w`.
#[verifier::opaque]
pub open spec fn lv_run(w: LvWorld, o: LvOutcome, fuel: nat) -> LvOutcome
    decreases fuel,
{
    match o {
        LvOutcome::Continue(s) => if fuel == 0 {
            o
        } else {
            lv_run(w, lv_step(s, lv_answer(w, lv_request(s))), (fuel - 1) as nat)
        },
        _ => o,
    }
}

/// The logical volumes that a world holds for the nodes `nodes` of the group
/// named `group`, their names decoded from the C strings.
pub open spec fn lv_world_volumes(w: LvWorld, group: Seq<char>, offset: usize, nodes: Seq<usize>) -> Seq<(Seq<char>, Seq<char>)> {
    Seq::new(
        nodes.len(),
        |i: int| (group, decode_utf8(c_text(w.names[(nodes[i] - offset) as usize]))),
    )
}

/// Every node of `nodes` lies at or above `offset`, and the identifier and
/// the name of its element are valid UTF-8.
pub open spec fn lv_world_readable(w: LvWorld, offset: usize, nodes: Seq<usize>) -> bool {
    forall|i: int|
        #![trigger nodes[i]]
        0 <= i < nodes.len() ==> {
            &&& offset <= nodes[i]
            &&& valid_utf8(c_text(w.uuids[(nodes[i] - offset) as usize]))
            &&& valid_utf8(c_text(w.names[(nodes[i] - offset) as usize]))
        }
}

proof fn lemma_lv_walk(w: LvWorld, group: Seq<char>, offset: usize, nodes: Seq<usize>, k: nat)
    requires
        is_ring(w.links, w.list, nodes),
        lv_world_readable(w, offset, nodes),
        k <= nodes.len(),
    ensures
        lv_run(
            w,
            lv_arrive(
                offset,
                group,
                w.list,
                if k < nodes.len() {
                    nodes[k as int]
                } else {
                    w.list
                },
                lv_world_volumes(w, group, offset, nodes).take(k as int),
            ),
            (3 * (nodes.len() - k)) as nat,
        ) == LvOutcome::Finished(lv_world_volumes(w, group, offset, nodes)),
    decreases nodes.len() - k,
{
    reveal(lv_run);
    let vols = lv_world_volumes(w, group, offset, nodes);
    let head: usize = w.list;
    if k == nodes.len() {
        assert(vols.take(k as int) =~= vols);
    } else {
        let pos: usize = nodes[k as int];
        assert(nodes.contains(pos));
        let item: usize = (pos - offset) as usize;
        let done = vols.take(k as int);
        let next: usize = w.links[pos];
        let s1 = LvState { offset, group, phase: LvPhase::ReadingNext { head, pos, item, vols: done } };
        let s2 = LvState {
            offset,
            group,
            phase: LvPhase::ReadingUuid { head, pos, item, next, vols: done },
        };
        let s3 = LvState {
            offset,
            group,
            phase: LvPhase::ReadingName { head, pos, item, next, vols: done },
        };
        let fuel: nat = (3 * (nodes.len() - k)) as nat;
        assert(lv_arrive(offset, group, head, pos, done) == LvOutcome::Continue(s1));
        assert(lv_step(s1, lv_answer(w, lv_request(s1))) == LvOutcome::Continue(s2));
        assert(lv_step(s2, lv_answer(w, lv_request(s2))) == LvOutcome::Continue(s3));
        let after: usize = if k + 1 < nodes.len() {
            nodes[k + 1 as int]
        } else {
            head
        };
        assert(next == after);
        assert(done.push(vols[k as int]) =~= vols.take(k + 1 as int));
        assert(lv_step(s3, lv_answer(w, lv_request(s3))) == lv_arrive(
            offset,
            group,
            head,
            next,
            vols.take(k + 1 as int),
        ));
        lemma_lv_walk(w, group, offset, nodes, (k + 1) as nat);
        assert(lv_run(w, LvOutcome::Continue(s3), (fuel - 2) as nat) == lv_run(
            w,
            lv_arrive(offset, group, head, next, vols.take(k + 1 as int)),
            (fuel - 3) as nat,
        ));
        assert(lv_run(w, LvOutcome::Continue(s2), (fuel - 1) as nat) == lv_run(
            w,
            LvOutcome::Continue(s3),
            (fuel - 2) as nat,
        ));
    }
}

/// Law: when the group's name can be passed as a C string and the C library
/// gives a list of logical volumes that forms a ring whose elements all hold
/// a valid identifier and name, the listing finishes with those logical
/// volumes, in list order, each with the group's name, after one step for
/// opening the group, one for the list, one for the list head and three for
/// each node.
pub proof fn law_lv_lists_ring(w: LvWorld, group: Seq<char>, offset: usize, nodes: Seq<usize>)
    requires
        !has_nul(encode_utf8(group)),
        w.list != 0,
        is_ring(w.links, w.list, nodes),
        lv_world_readable(w, offset, nodes),
    ensures
        lv_run(w, lv_start(group, offset), (3 + 3 * nodes.len()) as nat) == LvOutcome::Finished(
            lv_world_volumes(w, group, offset, nodes),
        ),
{
    reveal(lv_run);
    let head: usize = w.list;
    let s0 = LvState {
        offset,
        group,
        phase: LvPhase::Opening { name_c: encode_utf8(group).push(0u8) },
    };
    let s1 = LvState { offset, group, phase: LvPhase::Listing };
    let s2 = LvState { offset, group, phase: LvPhase::ReadingHead { head } };
    let first: usize = if 0 < nodes.len() {
        nodes[0]
    } else {
        head
    };
    let fuel: nat = (3 + 3 * nodes.len()) as nat;
    assert(lv_world_volumes(w, group, offset, nodes).take(0) =~= Seq::<(Seq<char>, Seq<char>)>::empty());
    lemma_lv_walk(w, group, offset, nodes, 0);
    assert(lv_step(s0, lv_answer(w, lv_request(s0))) == LvOutcome::Continue(s1));
    assert(lv_step(s1, lv_answer(w, lv_request(s1))) == LvOutcome::Continue(s2));
    assert(lv_step(s2, lv_answer(w, lv_request(s2))) == lv_arrive(offset, group, head, first, Seq::empty()));
    assert(lv_run(w, LvOutcome::Continue(s2), (fuel - 2) as nat) == lv_run(
        w,
        lv_arrive(offset, group, head, first, Seq::empty()),
        (fuel - 3) as nat,
    ));
    assert(lv_run(w, LvOutcome::Continue(s1), (fuel - 1) as nat) == lv_run(
        w,
        LvOutcome::Continue(s2),
        (fuel - 2) as nat,
    ));
}

/// Law: when the C library gives no list of logical volumes, the listing
/// stops after asking for the error, with that error, or because its
/// message is not valid UTF-8.
pub proof fn law_lv_list_failure(w: LvWorld, group: Seq<char>, offset: usize)
    requires
        !has_nul(encode_utf8(group)),
        w.list == 0,
    ensures
        valid_utf8(c_text(w.errmsg)) ==> lv_run(w, lv_start(group, offset), 3) == LvOutcome::Failed(
            FailureView::LvListFailed((w.errno, decode_utf8(c_text(w.errmsg)))),
        ),
        !valid_utf8(c_text(w.errmsg)) ==> lv_run(w, lv_start(group, offset), 3) == LvOutcome::Failed(
            FailureView::InvalidErrorMessage,
        ),
{
    reveal(lv_run);
    let s1 = LvState { offset, group, phase: LvPhase::Listing };
    let s2 = LvState { offset, group, phase: LvPhase::FetchingListError };
    assert(lv_run(w, LvOutcome::Continue(s2), 1) == lv_run(w, lv_step(s2, lv_answer(w, lv_request(s2))), 0));
    assert(lv_run(w, LvOutcome::Continue(s1), 2) == lv_run(w, LvOutcome::Continue(s2), 1));
}

} // verus!

verus! {

/// Law: a listing of the logical volumes of a group whose name holds no NUL
/// byte first asks to open the group by exactly that name: the UTF-8 bytes
/// of the name followed by one NUL, which the C library reads back as the
/// name itself, and in read mode (`"r"`).  The volumes it finds carry that
/// same group name.
pub proof fn law_lv_opens_group_by_its_name(group: Seq<char>, offset: usize)
    requires
        !has_nul(encode_utf8(group)),
    ensures
        lv_start(group, offset) matches LvOutcome::Continue(s) && {
            &&& s.group == group
            &&& s.offset == offset
            &&& lv_request(s) matches LvRequestView::OpenGroup { name, mode } && {
                &&& name == encode_utf8(group).push(0u8)
                &&& valid_utf8(c_text(name))
                &&& decode_utf8(c_text(name)) == group
                &&& mode == seq![0x72u8, 0u8]
            }
        },
{
    let name = encode_utf8(group).push(0u8);
    let n: int = encode_utf8(group).len() as int;
    assert forall|i: int| 0 <= i < n implies name[i] != 0u8 by {
        assert(name[i] == encode_utf8(group)[i]);
        if encode_utf8(group)[i] == 0u8 {
            assert(has_nul(encode_utf8(group)));
        }
    }
    lemma_c_text_prefix(name, n);
    assert(name.subrange(0, n) =~= encode_utf8(group));
    encode_utf8_valid_utf8(group);
    encode_utf8_decode_utf8(group);
}

} // verus!

verus! {

/// The node `node` lies at or above `offset`, and the identifier and the
/// name of its element are valid UTF-8.
pub open spec fn lv_node_readable(w: LvWorld, offset: usize, node: usize) -> bool {
    &&& offset <= node
    &&& valid_utf8(c_text(w.uuids[(node - offset) as usize]))
    &&& valid_utf8(c_text(w.names[(node - offset) as usize]))
}

/// The walk at step `k` of a listing over `nodes`, with the volumes of the
/// steps before it.
#[verifier::opaque]
spec fn lv_at_step(w: LvWorld, group: Seq<char>, offset: usize, nodes: Seq<usize>, k: nat) -> LvOutcome {
    lv_arrive(
        offset,
        group,
        w.list,
        ring_at(w.list, nodes, k),
        lv_world_volumes(w, group, offset, nodes).take(k as int),
    )
}

proof fn lemma_lv_node_step(w: LvWorld, group: Seq<char>, offset: usize, nodes: Seq<usize>, k: nat, f: nat)
    requires
        is_ring(w.links, w.list, nodes),
        k < nodes.len(),
        lv_node_readable(w, offset, nodes[k as int]),
    ensures
        lv_run(w, lv_at_step(w, group, offset, nodes, k), f + 3) == lv_run(
            w,
            lv_at_step(w, group, offset, nodes, (k + 1) as nat),
            f,
        ),
{
    reveal(lv_run);
    reveal(lv_at_step);
    let vols = lv_world_volumes(w, group, offset, nodes);
    let head: usize = w.list;
    let pos: usize = nodes[k as int];
    assert(nodes.contains(pos));
    let item: usize = (pos - offset) as usize;
    let done = vols.take(k as int);
    let next: usize = w.links[pos];
    let s1 = LvState { offset, group, phase: LvPhase::ReadingNext { head, pos, item, vols: done } };
    let s2 = LvState {
        offset,
        group,
        phase: LvPhase::ReadingUuid { head, pos, item, next, vols: done },
    };
    let s3 = LvState {
        offset,
        group,
        phase: LvPhase::ReadingName { head, pos, item, next, vols: done },
    };
    assert(lv_at_step(w, group, offset, nodes, k) == LvOutcome::Continue(s1));
    assert(lv_step(s1, lv_answer(w, lv_request(s1))) == LvOutcome::Continue(s2));
    assert(lv_step(s2, lv_answer(w, lv_request(s2))) == LvOutcome::Continue(s3));
    assert(next == ring_at(head, nodes, (k + 1) as nat));
    assert(done.push(vols[k as int]) =~= vols.take(k + 1 as int));
    assert(lv_step(s3, lv_answer(w, lv_request(s3))) == lv_at_step(
        w,
        group,
        offset,
        nodes,
        (k + 1) as nat,
    ));
    assert(lv_run(w, LvOutcome::Continue(s3), f + 1) == lv_run(
        w,
        lv_at_step(w, group, offset, nodes, (k + 1) as nat),
        f,
    ));
    assert(lv_run(w, LvOutcome::Continue(s2), f + 2) == lv_run(
        w,
        LvOutcome::Continue(s3),
        f + 1,
    ));
}

proof fn lemma_lv_walk_prefix(
    w: LvWorld,
    group: Seq<char>,
    offset: usize,
    nodes: Seq<usize>,
    k: nat,
    j: nat,
    f: nat,
)
    requires
        is_ring(w.links, w.list, nodes),
        k <= j <= nodes.len(),
        forall|i: int| k <= i < j ==> #[trigger] lv_node_readable(w, offset, nodes[i]),
    ensures
        lv_run(w, lv_at_step(w, group, offset, nodes, k), (3 * (j - k) + f) as nat) == lv_run(
            w,
            lv_at_step(w, group, offset, nodes, j),
            f,
        ),
    decreases j - k,
{
    if k < j {
        let rest: nat = (3 * (j - (k + 1)) + f) as nat;
        assert(lv_node_readable(w, offset, nodes[k as int]));
        lemma_lv_node_step(w, group, offset, nodes, k, rest);
        lemma_lv_walk_prefix(w, group, offset, nodes, (k + 1) as nat, j, f);
        assert((3 * (j - k) + f) as nat == rest + 3);
    }
}

proof fn lemma_lv_reaches_list(w: LvWorld, group: Seq<char>, offset: usize, nodes: Seq<usize>, f: nat)
    requires
        !has_nul(encode_utf8(group)),
        w.list != 0,
        is_ring(w.links, w.list, nodes),
    ensures
        lv_run(w, lv_start(group, offset), (3 + f) as nat) == lv_run(
            w,
            lv_at_step(w, group, offset, nodes, 0),
            f,
        ),
{
    reveal(lv_run);
    let head: usize = w.list;
    let s0 = LvState {
        offset,
        group,
        phase: LvPhase::Opening { name_c: encode_utf8(group).push(0u8) },
    };
    let s1 = LvState { offset, group, phase: LvPhase::Listing };
    let s2 = LvState { offset, group, phase: LvPhase::ReadingHead { head } };
    let fuel: nat = (3 + f) as nat;
    assert(lv_step(s0, lv_answer(w, lv_request(s0))) == LvOutcome::Continue(s1));
    assert(lv_step(s1, lv_answer(w, lv_request(s1))) == LvOutcome::Continue(s2));
    assert(lv_at_step(w, group, offset, nodes, 0) == lv_arrive(
        offset,
        group,
        head,
        w.links[head],
        Seq::empty(),
    )) by {
        reveal(lv_at_step);
        assert(lv_world_volumes(w, group, offset, nodes).take(0) =~= Seq::<(Seq<char>, Seq<char>)>::empty());
    }
    assert(lv_run(w, LvOutcome::Continue(s2), (fuel - 2) as nat) == lv_run(
        w,
        lv_at_step(w, group, offset, nodes, 0),
        (fuel - 3) as nat,
    ));
    assert(lv_run(w, LvOutcome::Continue(s1), (fuel - 1) as nat) == lv_run(
        w,
        LvOutcome::Continue(s2),
        (fuel - 2) as nat,
    ));
}

/// Law: when the identifier of the `j`-th logical volume in the list is not
/// valid UTF-8 and all volumes before it are readable, the listing stops
/// with `InvalidLvUuid` right after reading that identifier, before looking
/// up its name.
pub proof fn law_lv_stops_at_invalid_uuid(w: LvWorld, group: Seq<char>, offset: usize, nodes: Seq<usize>, j: nat)
    requires
        !has_nul(encode_utf8(group)),
        w.list != 0,
        is_ring(w.links, w.list, nodes),
        j < nodes.len(),
        forall|i: int| 0 <= i < j ==> #[trigger] lv_node_readable(w, offset, nodes[i]),
        offset <= nodes[j as int],
        !valid_utf8(c_text(w.uuids[(nodes[j as int] - offset) as usize])),
    ensures
        lv_run(w, lv_start(group, offset), (3 + 3 * j + 2) as nat) == LvOutcome::Failed(
            FailureView::InvalidLvUuid,
        ),
{
    lemma_lv_reaches_list(w, group, offset, nodes, (3 * j + 2) as nat);
    lemma_lv_walk_prefix(w, group, offset, nodes, 0, j, 2);
    let vols = lv_world_volumes(w, group, offset, nodes);
    let head: usize = w.list;
    let pos: usize = nodes[j as int];
    assert(nodes.contains(pos));
    let item: usize = (pos - offset) as usize;
    let done = vols.take(j as int);
    let next: usize = w.links[pos];
    let s1 = LvState { offset, group, phase: LvPhase::ReadingNext { head, pos, item, vols: done } };
    let s2 = LvState {
        offset,
        group,
        phase: LvPhase::ReadingUuid { head, pos, item, next, vols: done },
    };
    assert(lv_at_step(w, group, offset, nodes, j) == LvOutcome::Continue(s1)) by {
        reveal(lv_at_step);
    }
    assert(lv_step(s1, lv_answer(w, lv_request(s1))) == LvOutcome::Continue(s2));
    assert(lv_step(s2, lv_answer(w, lv_request(s2))) == LvOutcome::Failed(
        FailureView::InvalidLvUuid,
    ));
    assert(lv_run(w, LvOutcome::Continue(s1), 2) == LvOutcome::Failed(FailureView::InvalidLvUuid))
        by {
        reveal(lv_run);
        assert(lv_run(w, LvOutcome::Continue(s2), 1) == lv_run(
            w,
            LvOutcome::Failed(FailureView::InvalidLvUuid),
            0,
        ));
    }
}

/// Law: when the name of the `j`-th logical volume in the list is not valid
/// UTF-8, its identifier is, and all volumes before it are readable, the
/// listing stops with `InvalidLvName` right after reading that name.
pub proof fn law_lv_stops_at_invalid_name(w: LvWorld, group: Seq<char>, offset: usize, nodes: Seq<usize>, j: nat)
    requires
        !has_nul(encode_utf8(group)),
        w.list != 0,
        is_ring(w.links, w.list, nodes),
        j < nodes.len(),
        forall|i: int| 0 <= i < j ==> #[trigger] lv_node_readable(w, offset, nodes[i]),
        offset <= nodes[j as int],
        valid_utf8(c_text(w.uuids[(nodes[j as int] - offset) as usize])),
        !valid_utf8(c_text(w.names[(nodes[j as int] - offset) as usize])),
    ensures
        lv_run(w, lv_start(group, offset), (3 + 3 * j + 3) as nat) == LvOutcome::Failed(
            FailureView::InvalidLvName,
        ),
{
    lemma_lv_reaches_list(w, group, offset, nodes, (3 * j + 3) as nat);
    lemma_lv_walk_prefix(w, group, offset, nodes, 0, j, 3);
    let vols = lv_world_volumes(w, group, offset, nodes);
    let head: usize = w.list;
    let pos: usize = nodes[j as int];
    assert(nodes.contains(pos));
    let item: usize = (pos - offset) as usize;
    let done = vols.take(j as int);
    let next: usize = w.links[pos];
    let s1 = LvState { offset, group, phase: LvPhase::ReadingNext { head, pos, item, vols: done } };
    let s2 = LvState {
        offset,
        group,
        phase: LvPhase::ReadingUuid { head, pos, item, next, vols: done },
    };
    let s3 = LvState {
        offset,
        group,
        phase: LvPhase::ReadingName { head, pos, item, next, vols: done },
    };
    assert(lv_at_step(w, group, offset, nodes, j) == LvOutcome::Continue(s1)) by {
        reveal(lv_at_step);
    }
    assert(lv_step(s1, lv_answer(w, lv_request(s1))) == LvOutcome::Continue(s2));
    assert(lv_step(s2, lv_answer(w, lv_request(s2))) == LvOutcome::Continue(s3));
    assert(lv_step(s3, lv_answer(w, lv_request(s3))) == LvOutcome::Failed(
        FailureView::InvalidLvName,
    ));
    assert(lv_run(w, LvOutcome::Continue(s1), 3) == LvOutcome::Failed(FailureView::InvalidLvName))
        by {
        reveal(lv_run);
        assert(lv_run(w, LvOutcome::Continue(s3), 1) == lv_run(
            w,
            LvOutcome::Failed(FailureView::InvalidLvName),
            0,
        ));
        assert(lv_run(w, LvOutcome::Continue(s2), 2) == lv_run(w, LvOutcome::Continue(s3), 1));
    }
}

/// Law: when the `j`-th node of the list lies below the offset of the links
/// within their element, and all volumes before it are readable, the listing
/// stops with `AddressUnderflow` on arriving at that node, before reading it.
pub proof fn law_lv_stops_below_offset(w: LvWorld, group: Seq<char>, offset: usize, nodes: Seq<usize>, j: nat)
    requires
        !has_nul(encode_utf8(group)),
        w.list != 0,
        is_ring(w.links, w.list, nodes),
        j < nodes.len(),
        forall|i: int| 0 <= i < j ==> #[trigger] lv_node_readable(w, offset, nodes[i]),
        nodes[j as int] < offset,
    ensures
        lv_run(w, lv_start(group, offset), (3 + 3 * j) as nat) == LvOutcome::Failed(
            FailureView::AddressUnderflow,
        ),
{
    lemma_lv_reaches_list(w, group, offset, nodes, (3 * j) as nat);
    lemma_lv_walk_prefix(w, group, offset, nodes, 0, j, 0);
    assert(nodes.contains(nodes[j as int]));
    assert(lv_at_step(w, group, offset, nodes, j) == LvOutcome::Failed(FailureView::AddressUnderflow))
        by {
        reveal(lv_at_step);
    }
    assert(lv_run(w, LvOutcome::Failed(FailureView::AddressUnderflow), 0) == LvOutcome::Failed(
        FailureView::AddressUnderflow,
    )) by {
        reveal(lv_run);
    }
}

} // verus!
