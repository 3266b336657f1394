use std::collections::HashMap;

use lvm2::mapper::get_list_item;
use lvm2::{
    Failure, ListWalk, LvEvent, LvListing, LvRequest, LvStep, Mode, VgEvent, VgListing, VgRequest,
    VgStep, VolumeGroup,
};

/// A simulated C library: list links, the C strings of list elements, and
/// the answers to scanning and listing.
struct World {
    scan_status: i32,
    errno: i32,
    errmsg: Vec<u8>,
    list: usize,
    links: HashMap<usize, usize>,
    texts: HashMap<usize, Vec<u8>>,
    names: HashMap<usize, Vec<u8>>,
}

const OFFSET: usize = 16;

/// A world whose list has its head at 1000 and the given nodes in order;
/// each node's element (16 bytes below it) points to the given text.
fn ring_world(nodes: &[(usize, &str)]) -> World {
    let head = 1000usize;
    let mut links = HashMap::new();
    let mut texts = HashMap::new();
    let mut names = HashMap::new();
    let mut prev = head;
    for (node, text) in nodes {
        links.insert(prev, *node);
        let mut bytes = text.as_bytes().to_vec();
        bytes.push(0);
        texts.insert(node - OFFSET, bytes);
        let mut name = format!("lv_{}", text).into_bytes();
        name.push(0);
        names.insert(node - OFFSET, name);
        prev = *node;
    }
    links.insert(prev, head);
    World {
        scan_status: 0,
        errno: 0,
        errmsg: vec![0],
        list: head,
        links,
        texts,
        names,
    }
}

fn run_vg(w: &World, offset: usize) -> (Result<Vec<String>, Failure>, usize) {
    let (mut m, mut req) = VgListing::start(offset);
    let mut steps = 0usize;
    loop {
        let event = match req {
            VgRequest::Scan => VgEvent::Scanned { status: w.scan_status },
            VgRequest::FetchError => VgEvent::ErrorFetched { errno: w.errno, msg: w.errmsg.clone() },
            VgRequest::ListNames => VgEvent::Listed { list: w.list },
            VgRequest::ReadNext { node } => VgEvent::NextRead { next: w.links[&node] },
            VgRequest::ReadText { item } => VgEvent::TextRead { text: w.texts[&item].clone() },
        };
        steps += 1;
        match m.step(event) {
            VgStep::Continue(next, r) => {
                m = next;
                req = r;
            }
            VgStep::Finished(groups) => {
                return (Ok(groups.iter().map(|g| g.name().to_string()).collect()), steps)
            }
            VgStep::Failed(f) => return (Err(f), steps),
        }
    }
}

fn run_lv(w: &World, group: &str, offset: usize) -> Result<Vec<(String, String)>, Failure> {
    run_lv_counting(w, group, offset).0
}

fn run_lv_counting(
    w: &World,
    group: &str,
    offset: usize,
) -> (Result<Vec<(String, String)>, Failure>, usize) {
    let g = VolumeGroup::new(String::from(group));
    let mut state = LvListing::start(&g, offset);
    let mut steps = 0usize;
    loop {
        match state {
            LvStep::Finished(vols) => {
                let found = vols
                    .iter()
                    .map(|v| (v.group().to_string(), v.name().to_string()))
                    .collect();
                return (Ok(found), steps);
            }
            LvStep::Failed(f) => return (Err(f), steps),
            LvStep::Continue(m, req) => {
                let event = match req {
                    LvRequest::OpenGroup { name, mode } => {
                        let mut expected = group.as_bytes().to_vec();
                        expected.push(0);
                        assert_eq!(name, expected);
                        assert_eq!(mode, Mode::Read.to_c_string());
                        LvEvent::Opened
                    }
                    LvRequest::ListVolumes => LvEvent::Listed { list: w.list },
                    LvRequest::FetchError => {
                        LvEvent::ErrorFetched { errno: w.errno, msg: w.errmsg.clone() }
                    }
                    LvRequest::ReadNext { node } => LvEvent::NextRead { next: w.links[&node] },
                    LvRequest::ReadUuid { item } => {
                        LvEvent::UuidRead { text: w.texts[&item].clone() }
                    }
                    LvRequest::LookupName { item } => {
                        LvEvent::NameRead { text: w.names[&item].clone() }
                    }
                };
                steps += 1;
                state = m.step(event);
            }
        }
    }
}

#[test]
fn list_volue_groups_test() {
    let w = ring_world(&[(2000, "vg_root"), (3000, "vg_data")]);
    let (groups, _) = run_vg(&w, OFFSET);
    let groups = groups.unwrap();
    for group in &groups {
        println!("volume group: {}", group);
    }
    assert_eq!(groups, vec![String::from("vg_root"), String::from("vg_data")]);
}

#[test]
fn item_address_below_links() {
    assert_eq!(get_list_item(4096, 16), 4080);
    assert_eq!(get_list_item(16, 16), 0);
}

#[test]
fn walk_visits_ring_in_order() {
    let w = ring_world(&[(500, "a"), (300, "b"), (900, "c")]);
    let mut walk = ListWalk::start(w.list, w.links[&w.list]);
    let mut seen = Vec::new();
    while let Some(node) = walk.current() {
        seen.push(node);
        walk.advance(w.links[&node]);
    }
    assert_eq!(seen, vec![500, 300, 900]);
    assert_eq!(walk.current(), None);
}

#[test]
fn walk_of_empty_ring() {
    let walk = ListWalk::start(1000, 1000);
    assert_eq!(walk.current(), None);
}

#[test]
fn vg_listing_takes_three_steps_and_two_per_node() {
    let w = ring_world(&[(2000, "a"), (3000, "b"), (4000, "c")]);
    let (groups, steps) = run_vg(&w, OFFSET);
    assert_eq!(groups.unwrap().len(), 3);
    assert_eq!(steps, 3 + 2 * 3);
}

#[test]
fn vg_listing_of_empty_list() {
    let w = ring_world(&[]);
    let (groups, steps) = run_vg(&w, OFFSET);
    assert_eq!(groups.unwrap(), Vec::<String>::new());
    assert_eq!(steps, 3);
}

#[test]
fn vg_scan_failure_reports_error() {
    let mut w = ring_world(&[(2000, "a")]);
    w.scan_status = -1;
    w.errno = 13;
    w.errmsg = b"no access\0".to_vec();
    match run_vg(&w, OFFSET).0 {
        Err(Failure::ScanFailed(e)) => {
            assert_eq!(e.errno(), 13);
            assert_eq!(e.to_string(), "An error occurred with error code 13. (no access)");
        }
        other => panic!("unexpected {:?}", other),
    }
}

#[test]
fn vg_scan_failure_with_invalid_message() {
    let mut w = ring_world(&[]);
    w.scan_status = 1;
    w.errmsg = vec![0xff, 0];
    assert!(matches!(run_vg(&w, OFFSET).0, Err(Failure::InvalidErrorMessage)));
}

#[test]
fn vg_null_list_reports_error() {
    let mut w = ring_world(&[]);
    w.list = 0;
    w.errno = 2;
    w.errmsg = b"gone\0".to_vec();
    match run_vg(&w, OFFSET).0 {
        Err(Failure::VgListFailed(e)) => {
            assert_eq!(e.errno(), 2);
            assert_eq!(e.message(), "gone");
        }
        other => panic!("unexpected {:?}", other),
    }
}

#[test]
fn vg_invalid_name_stops_listing() {
    let mut w = ring_world(&[(2000, "a"), (3000, "b")]);
    w.texts.insert(3000 - OFFSET, vec![0xc0, 0x80, 0]);
    assert!(matches!(run_vg(&w, OFFSET).0, Err(Failure::InvalidVgName)));
}

#[test]
fn vg_node_below_offset_stops_listing() {
    let w = ring_world(&[(2000, "a")]);
    assert!(matches!(run_vg(&w, 4000).0, Err(Failure::AddressUnderflow)));
}

#[test]
fn vg_answer_of_wrong_kind_repeats_request() {
    let (m, req) = VgListing::start(OFFSET);
    assert_eq!(req, VgRequest::Scan);
    match m.step(VgEvent::Listed { list: 7 }) {
        VgStep::Continue(_, r) => assert_eq!(r, VgRequest::Scan),
        _ => panic!("the listing should go on"),
    }
}

#[test]
fn vg_scan_then_list_requests() {
    let (m, _) = VgListing::start(OFFSET);
    let m = match m.step(VgEvent::Scanned { status: 0 }) {
        VgStep::Continue(m, r) => {
            assert_eq!(r, VgRequest::ListNames);
            m
        }
        _ => panic!("the listing should go on"),
    };
    match m.step(VgEvent::Listed { list: 1000 }) {
        VgStep::Continue(m, r) => {
            assert_eq!(r, VgRequest::ReadNext { node: 1000 });
            assert_eq!(m.request(), VgRequest::ReadNext { node: 1000 });
        }
        _ => panic!("the listing should go on"),
    }
}

#[test]
fn lv_listing_finds_volumes_with_group() {
    let w = ring_world(&[(2000, "u1"), (3000, "u2")]);
    let vols = run_lv(&w, "vg0", OFFSET).unwrap();
    assert_eq!(
        vols,
        vec![
            (String::from("vg0"), String::from("lv_u1")),
            (String::from("vg0"), String::from("lv_u2")),
        ]
    );
}

#[test]
fn lv_group_name_with_nul_is_refused() {
    let w = ring_world(&[]);
    match run_lv(&w, "v\0g", OFFSET) {
        Err(Failure::InvalidGroupName(e)) => assert_eq!(e.nul_position(), 1),
        other => panic!("unexpected {:?}", other),
    }
}

#[test]
fn lv_null_list_reports_error() {
    let mut w = ring_world(&[]);
    w.list = 0;
    w.errno = 5;
    w.errmsg = b"io\0".to_vec();
    match run_lv(&w, "vg0", OFFSET) {
        Err(Failure::LvListFailed(e)) => assert_eq!(e.errno(), 5),
        other => panic!("unexpected {:?}", other),
    }
}

#[test]
fn lv_invalid_uuid_stops_listing() {
    let mut w = ring_world(&[(2000, "u1")]);
    w.texts.insert(2000 - OFFSET, vec![0xff, 0]);
    assert!(matches!(run_lv(&w, "vg0", OFFSET), Err(Failure::InvalidLvUuid)));
}

#[test]
fn lv_invalid_name_stops_listing() {
    let mut w = ring_world(&[(2000, "u1")]);
    w.names.insert(2000 - OFFSET, vec![0xed, 0xa0, 0x80, 0]);
    assert!(matches!(run_lv(&w, "vg0", OFFSET), Err(Failure::InvalidLvName)));
}

#[test]
fn lv_empty_list() {
    let w = ring_world(&[]);
    assert_eq!(run_lv(&w, "vg0", OFFSET).unwrap(), Vec::<(String, String)>::new());
}

#[test]
fn lv_listing_takes_three_steps_and_three_per_node() {
    let w = ring_world(&[(2000, "u1"), (3000, "u2")]);
    let (vols, steps) = run_lv_counting(&w, "vg0", OFFSET);
    assert_eq!(vols.unwrap().len(), 2);
    assert_eq!(steps, 3 + 3 * 2);
}
