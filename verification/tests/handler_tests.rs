use elevator::elev_io::{Button, Floor, Light, MotorDir, N_FLOORS};
use elevator::peer::PeerUpdate;
use elevator::request::{Request, RequestStatus, RequestType};
use elevator::request_handler::{BroadcastMessage, RequestHandler};

fn handler(ip: &str) -> RequestHandler {
    RequestHandler::new(String::from(ip))
}

fn req(t: RequestType, floor: usize, status: RequestStatus) -> Request {
    Request { floor, request_type: t, status, acknowledged_by: Vec::new() }
}

#[test]
fn a_fresh_table_is_unknown_with_illegal_cells_inactive() {
    let h = handler("10.0.0.2");
    assert_eq!(h.get_request(RequestType::CallUp, 0).status, RequestStatus::Unknown);
    assert_eq!(h.get_request(RequestType::Internal, 3).status, RequestStatus::Unknown);
    assert_eq!(
        h.get_request(RequestType::CallUp, N_FLOORS - 1).status,
        RequestStatus::Inactive
    );
    assert_eq!(h.get_request(RequestType::CallDown, 0).status, RequestStatus::Inactive);
}

#[test]
fn the_merge_rule_follows_the_transition_table() {
    let mut h = handler("10.0.0.2");
    let from_a = String::from("10.0.0.2");

    // Unknown adopts anything, with no lamp hint.
    let hint = h.merge_incoming_request(&req(RequestType::CallUp, 1, RequestStatus::Pending), from_a.clone());
    assert_eq!(hint, None);
    assert_eq!(h.get_request(RequestType::CallUp, 1).status, RequestStatus::Pending);

    // Pending + Active promotes, lamp on.
    let hint = h.merge_incoming_request(&req(RequestType::CallUp, 1, RequestStatus::Active), from_a.clone());
    assert_eq!(hint, Some(Light::On));
    assert_eq!(h.get_request(RequestType::CallUp, 1).status, RequestStatus::Active);

    // Active + Inactive clears, lamp off.
    let hint = h.merge_incoming_request(&req(RequestType::CallUp, 1, RequestStatus::Inactive), from_a.clone());
    assert_eq!(hint, Some(Light::Off));
    assert_eq!(h.get_request(RequestType::CallUp, 1).status, RequestStatus::Inactive);

    // Inactive + Pending re-opens the call.
    let hint = h.merge_incoming_request(&req(RequestType::CallUp, 1, RequestStatus::Pending), from_a.clone());
    assert_eq!(hint, None);
    assert_eq!(h.get_request(RequestType::CallUp, 1).status, RequestStatus::Pending);

    // A pair outside the table is a no-op: no regression on stale news.
    let hint = h.merge_incoming_request(&req(RequestType::CallUp, 1, RequestStatus::Unknown), from_a);
    assert_eq!(hint, None);
    assert_eq!(h.get_request(RequestType::CallUp, 1).status, RequestStatus::Pending);
}

#[test]
fn merging_the_same_broadcast_twice_changes_nothing_more() {
    // Idempotence on a settled cell: a re-delivered Active broadcast.
    let mut h = handler("10.0.0.2");
    h.set_request(req(RequestType::CallUp, 2, RequestStatus::Pending));
    let remote = req(RequestType::CallUp, 2, RequestStatus::Active);
    h.merge_incoming_request(&remote, String::from("10.0.0.3"));
    let status_once = h.get_request(RequestType::CallUp, 2).status;
    let acks_once = h.get_request(RequestType::CallUp, 2).acknowledged_by.clone();
    let hint = h.merge_incoming_request(&remote, String::from("10.0.0.3"));
    assert_eq!(hint, None);
    assert_eq!(h.get_request(RequestType::CallUp, 2).status, status_once);
    assert_eq!(h.get_request(RequestType::CallUp, 2).acknowledged_by, acks_once);
}

#[test]
fn repeated_pending_gossip_is_idempotent() {
    let mut h = handler("10.0.0.2");
    h.peers = vec![String::from("10.0.0.2:1"), String::from("10.0.0.3:7"), String::from("10.0.0.4:9")];
    h.set_request(req(RequestType::CallUp, 2, RequestStatus::Pending));
    let remote = req(RequestType::CallUp, 2, RequestStatus::Pending);
    h.merge_incoming_request(&remote, String::from("10.0.0.3"));
    let acks_once = h.get_request(RequestType::CallUp, 2).acknowledged_by.clone();
    let status_once = h.get_request(RequestType::CallUp, 2).status;
    h.merge_incoming_request(&remote, String::from("10.0.0.3"));
    assert_eq!(h.get_request(RequestType::CallUp, 2).acknowledged_by, acks_once);
    assert_eq!(h.get_request(RequestType::CallUp, 2).status, status_once);
}

#[test]
fn illegal_cells_are_skipped_entirely() {
    let mut h = handler("10.0.0.2");
    let hint = h.merge_incoming_request(
        &req(RequestType::CallDown, 0, RequestStatus::Active),
        String::from("10.0.0.3"),
    );
    assert_eq!(hint, None);
    assert_eq!(h.get_request(RequestType::CallDown, 0).status, RequestStatus::Inactive);
    let hint = h.merge_incoming_request(
        &req(RequestType::CallUp, N_FLOORS - 1, RequestStatus::Active),
        String::from("10.0.0.3"),
    );
    assert_eq!(hint, None);
    assert_eq!(
        h.get_request(RequestType::CallUp, N_FLOORS - 1).status,
        RequestStatus::Inactive
    );
    // A floor beyond the building is dropped like a bad datagram.
    let hint = h.merge_incoming_request(
        &req(RequestType::CallUp, N_FLOORS + 5, RequestStatus::Active),
        String::from("10.0.0.3"),
    );
    assert_eq!(hint, None);
}

#[test]
fn buttons_without_a_landing_announce_nothing() {
    let h = handler("10.0.0.2");
    assert!(h.announce_new_request(&Button::CallUp(Floor::At(N_FLOORS - 1))).is_none());
    assert!(h.announce_new_request(&Button::CallDown(Floor::At(0))).is_none());
    assert!(h.announce_new_request(&Button::Internal(Floor::At(2))).is_none());
    assert!(h.announce_new_request(&Button::CallUp(Floor::Between)).is_none());
}

#[test]
fn a_hall_press_announces_a_fresh_pending_cell() {
    let h = handler("10.0.0.2");
    let m = h.announce_new_request(&Button::CallUp(Floor::At(2))).unwrap();
    match m {
        BroadcastMessage::RequestMessage(r) => {
            assert_eq!(r.floor, 2);
            assert_eq!(r.request_type, RequestType::CallUp);
            assert_eq!(r.status, RequestStatus::Pending);
            assert!(r.acknowledged_by.is_empty());
        },
        BroadcastMessage::Position(_) => panic!("expected a request message"),
    }
}

#[test]
fn clearing_a_floor_announces_internal_then_hall() {
    let h = handler("10.0.0.2");
    let msgs = h.announce_requests_cleared(2, MotorDir::Up);
    assert_eq!(msgs.len(), 2);
    match &msgs[0] {
        BroadcastMessage::RequestMessage(r) => {
            assert_eq!(r.request_type, RequestType::Internal);
            assert_eq!(r.floor, 2);
            assert_eq!(r.status, RequestStatus::Inactive);
        },
        BroadcastMessage::Position(_) => panic!("expected a request message"),
    }
    match &msgs[1] {
        BroadcastMessage::RequestMessage(r) => {
            assert_eq!(r.request_type, RequestType::CallUp);
            assert_eq!(r.floor, 2);
            assert_eq!(r.status, RequestStatus::Inactive);
        },
        BroadcastMessage::Position(_) => panic!("expected a request message"),
    }
    // At the top floor going up there is no hall cell to clear.
    let msgs = h.announce_requests_cleared(N_FLOORS - 1, MotorDir::Up);
    assert_eq!(msgs.len(), 1);
}

#[test]
fn the_periodic_refresh_carries_every_legal_hall_cell() {
    let mut h = handler("10.0.0.2");
    h.set_request(req(RequestType::CallUp, 1, RequestStatus::Active));
    let msgs = h.announce_all_requests();
    assert_eq!(msgs.len(), 2 * N_FLOORS - 2);
    let mut saw_active_up_1 = false;
    for m in &msgs {
        match m {
            BroadcastMessage::RequestMessage(r) => {
                assert_ne!(r.request_type, RequestType::Internal);
                if r.request_type == RequestType::CallUp {
                    assert_ne!(r.floor, N_FLOORS - 1);
                } else {
                    assert_ne!(r.floor, 0);
                }
                if r.request_type == RequestType::CallUp && r.floor == 1 {
                    assert_eq!(r.status, RequestStatus::Active);
                    saw_active_up_1 = true;
                }
            },
            BroadcastMessage::Position(_) => panic!("expected request messages only"),
        }
    }
    assert!(saw_active_up_1);
}

#[test]
fn ties_go_to_the_lexicographically_smaller_ip() {
    // Both cabins at floor 0, an up call at floor 3 active on both.
    // Equal cost, so the smaller IP owns the call: it moves, the other
    // stays.
    let mut a = handler("10.0.0.2");
    a.handle_position_update(String::from("10.0.0.3"), 0);
    a.set_request(req(RequestType::CallUp, 3, RequestStatus::Active));
    let mut b = handler("10.0.0.3");
    b.handle_position_update(String::from("10.0.0.2"), 0);
    b.set_request(req(RequestType::CallUp, 3, RequestStatus::Active));
    assert!(a.should_continue(0, MotorDir::Up));
    assert!(!b.should_continue(0, MotorDir::Up));
}

#[test]
fn the_nearer_cabin_owns_the_call() {
    let mut a = handler("10.0.0.2");
    a.handle_position_update(String::from("10.0.0.3"), 3);
    a.set_request(req(RequestType::CallDown, 3, RequestStatus::Active));
    // The peer stands at the call's floor; this cabin is three floors
    // away, so the call is not locally assigned.
    let call = req(RequestType::CallDown, 3, RequestStatus::Active);
    assert_eq!(a.calculate_cost(&call, 0), 3);
    assert!(!a.request_is_assigned_locally(&call, 0));
    assert!(!a.should_continue(0, MotorDir::Up));
}

#[test]
fn internal_calls_are_always_locally_assigned() {
    let mut a = handler("10.0.0.2");
    a.handle_position_update(String::from("10.0.0.3"), 3);
    a.set_request(req(RequestType::Internal, 3, RequestStatus::Active));
    assert!(a.should_continue(0, MotorDir::Up));
}

#[test]
fn should_stop_wants_an_active_cell_at_the_floor() {
    let mut h = handler("10.0.0.2");
    assert!(!h.should_stop(2, MotorDir::Up));
    h.set_request(req(RequestType::CallUp, 2, RequestStatus::Active));
    assert!(h.should_stop(2, MotorDir::Up));
    assert!(!h.should_stop(2, MotorDir::Down));
    h.set_request(req(RequestType::Internal, 1, RequestStatus::Active));
    assert!(h.should_stop(1, MotorDir::Down));
    // Pending is not enough: service waits for full acknowledgement.
    h.set_request(req(RequestType::CallDown, 3, RequestStatus::Pending));
    assert!(!h.should_stop(3, MotorDir::Down));
}

#[test]
fn a_down_call_at_the_bottom_floor_turns_the_cabin_around() {
    let mut h = handler("10.0.0.2");
    h.set_request(req(RequestType::CallDown, 0, RequestStatus::Active));
    assert!(h.should_change_direction(0, MotorDir::Up));
}

#[test]
fn orders_beyond_the_current_floor_continue_the_ride() {
    let mut h = handler("10.0.0.2");
    h.set_request(req(RequestType::CallUp, 2, RequestStatus::Active));
    assert!(h.should_continue(0, MotorDir::Up));
    assert!(h.should_continue(1, MotorDir::Up));
    assert!(!h.should_continue(2, MotorDir::Up));
    assert!(!h.should_continue(0, MotorDir::Down));
    assert!(h.should_change_direction(3, MotorDir::Up));
}

#[test]
fn peer_updates_rule_the_position_map() {
    let mut h = handler("10.0.0.2");
    h.handle_position_update(String::from("10.0.0.3"), 2);
    h.handle_position_update(String::from("10.0.0.4"), 1);
    h.handle_position_update(String::from("10.0.0.3"), 3);
    assert_eq!(h.peer_positions.len(), 2);
    assert_eq!(h.peer_positions[0], (String::from("10.0.0.3"), 3));
    assert_eq!(h.peer_positions[1], (String::from("10.0.0.4"), 1));

    // A lost peer is dropped; a new one starts at floor 0.
    h.handle_peer_update(PeerUpdate {
        peers: vec![String::from("10.0.0.2:1"), String::from("10.0.0.4:9"), String::from("10.0.0.5:3")],
        new: Some(String::from("10.0.0.5:3")),
        lost: vec![String::from("10.0.0.3:7")],
    });
    assert_eq!(h.peers.len(), 3);
    assert_eq!(h.peer_positions.len(), 2);
    assert_eq!(h.peer_positions[0], (String::from("10.0.0.4"), 1));
    assert_eq!(h.peer_positions[1], (String::from("10.0.0.5"), 0));
}

#[test]
fn a_crashed_peer_stops_blocking_promotion() {
    // Three nodes; one crashes while an up call is pending with a single
    // acknowledgement. After presence drops it, the next pending gossip
    // covers the survivors and the call goes active.
    let mut b = handler("10.0.0.3");
    b.handle_peer_update(PeerUpdate {
        peers: vec![
            String::from("10.0.0.2:1"),
            String::from("10.0.0.3:7"),
            String::from("10.0.0.4:9"),
        ],
        new: None,
        lost: Vec::new(),
    });
    let mut pending = req(RequestType::CallUp, 2, RequestStatus::Pending);
    pending.acknowledged_by.push(String::from("10.0.0.2"));
    b.set_request(pending);

    // With the crashed node still in the peer set, the echo from the
    // first node does not cover everyone.
    let gossip = req(RequestType::CallUp, 2, RequestStatus::Pending);
    b.merge_incoming_request(&gossip, String::from("10.0.0.2"));
    assert_eq!(b.get_request(RequestType::CallUp, 2).status, RequestStatus::Pending);

    b.handle_peer_update(PeerUpdate {
        peers: vec![String::from("10.0.0.2:1"), String::from("10.0.0.3:7")],
        new: None,
        lost: vec![String::from("10.0.0.4:9")],
    });
    let hint = b.merge_incoming_request(&gossip, String::from("10.0.0.3"));
    assert_eq!(hint, Some(Light::On));
    assert_eq!(b.get_request(RequestType::CallUp, 2).status, RequestStatus::Active);
}

#[test]
fn a_lone_node_hears_its_own_press_as_pending() {
    // Announce-then-merge on a single node with no peers: the first
    // echo of its own broadcast only adopts the cell as Pending. The
    // next echo counts as an acknowledgement, and with no peers the
    // coverage condition holds vacuously: a one-node system promotes
    // straight to Active.
    let mut a = handler("10.0.0.2");
    let pressed = a.announce_new_request(&Button::CallUp(Floor::At(2))).unwrap();
    let wire = match pressed {
        BroadcastMessage::RequestMessage(r) => r,
        BroadcastMessage::Position(_) => panic!("expected a request message"),
    };
    assert_eq!(a.merge_incoming_request(&wire, String::from("10.0.0.2")), None);
    assert_eq!(a.get_request(RequestType::CallUp, 2).status, RequestStatus::Pending);
    let hint = a.merge_incoming_request(&wire, String::from("10.0.0.2"));
    assert_eq!(hint, Some(Light::On));
    assert_eq!(a.get_request(RequestType::CallUp, 2).status, RequestStatus::Active);
}

#[test]
fn two_nodes_gossip_an_up_call_to_active() {
    // One node presses an up call; the other adopts it and echoes it
    // back; the presser's acknowledgement set then covers both and the
    // call goes active, lighting the lamp.
    let peer_list = vec![String::from("10.0.0.2:1"), String::from("10.0.0.3:7")];
    let mut a = handler("10.0.0.2");
    a.peers = peer_list.clone();
    let mut b = handler("10.0.0.3");
    b.peers = peer_list;

    let pressed = a.announce_new_request(&Button::CallUp(Floor::At(2))).unwrap();
    let wire = match pressed {
        BroadcastMessage::RequestMessage(r) => r,
        BroadcastMessage::Position(_) => panic!("expected a request message"),
    };

    // Both receive the broadcast and adopt the pending call.
    assert_eq!(b.merge_incoming_request(&wire, String::from("10.0.0.2")), None);
    assert_eq!(b.get_request(RequestType::CallUp, 2).status, RequestStatus::Pending);
    assert_eq!(a.merge_incoming_request(&wire, String::from("10.0.0.2")), None);

    // The periodic re-announce acknowledges each sender in turn.
    assert_eq!(a.merge_incoming_request(&wire, String::from("10.0.0.2")), None);
    assert_eq!(a.get_request(RequestType::CallUp, 2).status, RequestStatus::Pending);
    let hint = a.merge_incoming_request(&wire, String::from("10.0.0.3"));
    assert_eq!(hint, Some(Light::On));
    assert_eq!(a.get_request(RequestType::CallUp, 2).status, RequestStatus::Active);
}
