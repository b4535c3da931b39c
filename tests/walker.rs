use audio_topology::labels::{ConnectorKind, DataFlow, Direction, PartType};
use audio_topology::node::{NodeReads, ReadFailure};
use audio_topology::walker::{
    ConnectorRead, Diagnostic, Request, TopologyReport, Walker, NOT_CONNECTED,
};

/// One node of a test graph; the handle of a node is its position.
struct Part {
    gid: &'static str,
    part: i32,
    incoming: Vec<u64>,
    outgoing: Vec<u64>,
    peer: Option<&'static str>,
}

fn part(gid: &'static str, part: i32, incoming: Vec<u64>, outgoing: Vec<u64>) -> Part {
    Part { gid, part, incoming, outgoing, peer: None }
}

fn node_reads(p: &Part) -> NodeReads {
    NodeReads {
        name: Ok(format!("name {}", p.gid)),
        global_id: Ok(p.gid.to_string()),
        local_id: Ok(1),
        sub_type: Ok(0),
        part_type: Ok(p.part),
        interfaces: Ok(vec![]),
    }
}

/// Answers every request from `graph`; returns the report and the directions asked for.
fn drive(flow: DataFlow, roots: Vec<u64>, graph: &[Part]) -> (TopologyReport, Vec<Direction>) {
    let mut w = Walker::new(flow, 1, &roots);
    let mut directions = Vec::new();
    let mut steps = 0;
    loop {
        steps += 1;
        assert!(steps < 1000, "the walk does not end");
        match w.next_request() {
            Request::Describe { handle } => w.accept_node(node_reads(&graph[handle as usize])),
            Request::ReadConnector { handle } => {
                let p = &graph[handle as usize];
                w.accept_connector(ConnectorRead {
                    kind: Ok(2),
                    peer: match p.peer {
                        Some(g) => Ok(g.to_string()),
                        None => Err(ReadFailure { code: NOT_CONNECTED }),
                    },
                })
            }
            Request::Expand { handle, direction } => {
                directions.push(direction);
                let p = &graph[handle as usize];
                let kids = match direction {
                    Direction::Incoming => p.incoming.clone(),
                    Direction::Outgoing => p.outgoing.clone(),
                };
                w.accept_children(Ok(kids))
            }
            Request::Done => break,
        }
    }
    (w.finish(), directions)
}

fn gids(r: &TopologyReport) -> Vec<String> {
    r.nodes.iter().map(|e| e.info.global_id.clone()).collect()
}

#[test]
fn connector_subunit_connector_chain() {
    let graph = vec![
        part("root", 0, vec![1], vec![]),
        part("sub", 1, vec![2], vec![]),
        part("jack", 0, vec![], vec![]),
    ];
    let (report, _) = drive(DataFlow::Render, vec![0], &graph);
    assert_eq!(report.nodes.len(), 3);
    let last = &report.nodes[2];
    assert_eq!(last.info.part_type, PartType::Connector);
    let c = last.connector.as_ref().unwrap();
    assert_eq!(c.peer, None);
    assert_eq!(c.kind, ConnectorKind::PhysicalExternal);
    assert!(report.diagnostics.is_empty());
    assert_eq!(report.nodes[0].connector.is_none(), true);
}

#[test]
fn render_expands_incoming_capture_outgoing() {
    let graph = vec![
        part("root", 0, vec![1], vec![2]),
        part("in", 1, vec![3], vec![]),
        part("out", 1, vec![], vec![4]),
        part("in-jack", 0, vec![], vec![]),
        part("out-jack", 0, vec![], vec![]),
    ];
    let (render, dirs) = drive(DataFlow::Render, vec![0], &graph);
    assert_eq!(gids(&render), vec!["root", "in", "in-jack"]);
    assert!(dirs.iter().all(|d| *d == Direction::Incoming));
    for flow in [DataFlow::Capture, DataFlow::All] {
        let (capture, dirs) = drive(flow, vec![0], &graph);
        assert_eq!(gids(&capture), vec!["root", "out", "out-jack"]);
        assert!(dirs.iter().all(|d| *d == Direction::Outgoing));
    }
}

#[test]
fn nodes_come_in_pre_order() {
    let graph = vec![
        part("root", 0, vec![1, 2], vec![]),
        part("a", 1, vec![3, 4], vec![]),
        part("b", 0, vec![], vec![]),
        part("c", 0, vec![], vec![]),
        part("d", 1, vec![5], vec![]),
        part("e", 0, vec![], vec![]),
    ];
    let (report, _) = drive(DataFlow::Render, vec![0], &graph);
    assert_eq!(gids(&report), vec!["root", "a", "c", "d", "e", "b"]);
    let parents: Vec<Option<usize>> = report.nodes.iter().map(|e| e.parent).collect();
    assert_eq!(parents, vec![None, Some(0), Some(1), Some(1), Some(3), Some(0)]);
}

#[test]
fn each_root_is_walked_in_order() {
    let graph = vec![
        part("r0", 0, vec![2], vec![]),
        part("r1", 0, vec![3], vec![]),
        part("j0", 0, vec![], vec![]),
        part("j1", 0, vec![], vec![]),
    ];
    let (report, _) = drive(DataFlow::Render, vec![0, 1], &graph);
    assert_eq!(gids(&report), vec!["r0", "j0", "r1", "j1"]);
}

#[test]
fn cycle_is_reported_and_cut() {
    let graph = vec![
        part("root", 0, vec![1], vec![]),
        part("s1", 1, vec![2], vec![]),
        part("s2", 1, vec![1, 3], vec![]),
        part("jack", 0, vec![], vec![]),
    ];
    let (report, _) = drive(DataFlow::Render, vec![0], &graph);
    assert_eq!(gids(&report), vec!["root", "s1", "s2", "jack"]);
    assert_eq!(report.diagnostics.len(), 1);
    match &report.diagnostics[0] {
        Diagnostic::CycleDetected { handle, global_id } => {
            assert_eq!(*handle, 1);
            assert_eq!(global_id, "s1");
        }
        d => panic!("unexpected {:?}", d),
    }
}

#[test]
fn shared_node_is_visited_once() {
    let graph = vec![
        part("root", 0, vec![1, 2], vec![]),
        part("a", 1, vec![3], vec![]),
        part("b", 1, vec![3], vec![]),
        part("jack", 0, vec![], vec![]),
    ];
    let (report, _) = drive(DataFlow::Render, vec![0], &graph);
    assert_eq!(gids(&report), vec!["root", "a", "jack", "b"]);
}

#[test]
fn walking_twice_gives_the_same_report() {
    let graph = vec![
        part("root", 0, vec![1, 2], vec![]),
        part("a", 1, vec![3], vec![]),
        part("b", 0, vec![], vec![]),
        part("c", 0, vec![], vec![]),
    ];
    let (first, _) = drive(DataFlow::Render, vec![0], &graph);
    let (second, _) = drive(DataFlow::Render, vec![0], &graph);
    assert_eq!(format!("{:?}", first), format!("{:?}", second));
    assert_eq!(gids(&first), vec!["root", "a", "c", "b"]);
}

#[test]
fn unreadable_node_and_children_are_reported() {
    let mut w = Walker::new(DataFlow::Capture, 1, &vec![10, 11]);
    assert_eq!(w.next_request(), Request::Describe { handle: 10 });
    let mut broken = node_reads(&part("x", 1, vec![], vec![]));
    broken.name = Err(ReadFailure { code: -4 });
    w.accept_node(broken);
    assert_eq!(w.next_request(), Request::Describe { handle: 11 });
    w.accept_node(node_reads(&part("y", 1, vec![], vec![])));
    assert_eq!(
        w.next_request(),
        Request::Expand { handle: 11, direction: Direction::Outgoing }
    );
    w.accept_children(Err(ReadFailure { code: -6 }));
    assert_eq!(w.next_request(), Request::Done);
    let report = w.finish();
    assert_eq!(report.nodes.len(), 1);
    assert_eq!(report.diagnostics.len(), 2);
    assert!(matches!(
        report.diagnostics[0],
        Diagnostic::NodeUnreadable { handle: 10, failure: ReadFailure { code: -4 } }
    ));
    assert!(matches!(
        report.diagnostics[1],
        Diagnostic::ChildrenUnreadable { handle: 11, failure: ReadFailure { code: -6 } }
    ));
}

#[test]
fn connector_answers_and_failures() {
    let mut w = Walker::new(DataFlow::Render, 1, &vec![0]);
    w.accept_node(node_reads(&part("root", 0, vec![], vec![])));
    w.accept_children(Ok(vec![1, 2, 3]));
    w.accept_node(node_reads(&part("c1", 0, vec![], vec![])));
    assert_eq!(w.next_request(), Request::ReadConnector { handle: 1 });
    w.accept_connector(ConnectorRead { kind: Ok(5), peer: Ok("other".to_string()) });
    w.accept_node(node_reads(&part("c2", 0, vec![], vec![])));
    w.accept_connector(ConnectorRead {
        kind: Err(ReadFailure { code: -8 }),
        peer: Ok("ignored".to_string()),
    });
    w.accept_node(node_reads(&part("c3", 0, vec![], vec![])));
    w.accept_connector(ConnectorRead { kind: Ok(3), peer: Err(ReadFailure { code: -9 }) });
    assert_eq!(w.next_request(), Request::Done);
    let report = w.finish();
    let c1 = report.nodes[1].connector.as_ref().unwrap();
    assert_eq!(c1.kind, ConnectorKind::Network);
    assert_eq!(c1.peer, Some("other".to_string()));
    assert!(report.nodes[2].connector.is_none());
    let c3 = report.nodes[3].connector.as_ref().unwrap();
    assert_eq!(c3.kind, ConnectorKind::SoftwareIO);
    assert_eq!(c3.peer, None);
    assert_eq!(report.diagnostics.len(), 2);
    assert!(matches!(
        report.diagnostics[0],
        Diagnostic::ConnectorUnreadable { handle: 2, failure: ReadFailure { code: -8 } }
    ));
    assert!(matches!(
        report.diagnostics[1],
        Diagnostic::ConnectorUnreadable { handle: 3, failure: ReadFailure { code: -9 } }
    ));
}

#[test]
fn walk_without_roots_is_done() {
    let w = Walker::new(DataFlow::All, 4, &vec![]);
    assert_eq!(w.next_request(), Request::Done);
    let report = w.finish();
    assert!(report.nodes.is_empty());
    assert!(report.diagnostics.is_empty());
}
