//! The replicated request table and the decisions computed from it.
//!
//! Every node holds one cell per `(kind, floor)` pair. Hall cells are
//! replicated by broadcast gossip and merged under the monotone rule of
//! [`spec_merge_cell`]; internal cells are local. From identical
//! replicated state every node independently computes the same
//! assignment of active hall calls to cabins — nearest cabin wins, ties
//! broken by the lexicographic order on IPs — so exactly one cabin
//! stops for each call, with no leader and no locks.

use vstd::prelude::*;
use vstd::pervasive::VecAdditionalExecFns;
use crate::elev_io::{Button, Floor, Light, MotorDir, N_FLOORS};
use crate::peer::{
    clone_strings, ip_of, ip_prefix, lemma_lex_le_antisymmetric, lex_le, str_equal, str_lex_le,
    views_of, PeerUpdate,
};
use crate::request::{spec_ack_acks, spec_covered, Request, RequestStatus, RequestType};

verus! {

/// What one node tells the others: the contents of one request cell, or
/// its cabin's current floor.
#[derive(Clone, Debug)]
pub enum BroadcastMessage {
    RequestMessage(Request),
    Position(usize),
}

/// Row of each kind in the table: down calls, then up calls, then
/// internal calls.
pub open spec fn spec_kind_index(t: RequestType) -> int {
    match t {
        RequestType::CallDown => 0,
        RequestType::CallUp => 1,
        RequestType::Internal => 2,
    }
}

/// Exec twin of [`spec_kind_index`].
pub fn kind_index(t: RequestType) -> (k: usize)
    ensures
        k == spec_kind_index(t),
        k < 3,
{
    match t {
        RequestType::CallDown => 0,
        RequestType::CallUp => 1,
        RequestType::Internal => 2,
    }
}

/// Cells that name no existing button: an up call on the top floor, a
/// down call on floor 0. They are never merged and never broadcast.
pub open spec fn spec_illegal_cell(t: RequestType, floor: int) -> bool {
    ||| (t == RequestType::CallUp && floor == N_FLOORS - 1)
    ||| (t == RequestType::CallDown && floor == 0)
}

/// Exec twin of [`spec_illegal_cell`].
pub fn illegal_cell(t: RequestType, floor: usize) -> (r: bool)
    ensures
        r == spec_illegal_cell(t, floor as int),
{
    match t {
        RequestType::CallUp => floor == N_FLOORS - 1,
        RequestType::CallDown => floor == 0,
        RequestType::Internal => false,
    }
}

/// Distance cost of serving a call at `rfloor` from a cabin at `pos`.
pub open spec fn spec_cost(rfloor: int, pos: int) -> int {
    if rfloor >= pos {
        rfloor - pos
    } else {
        pos - rfloor
    }
}

/// Table row of the hall kind matching a travel direction.
pub open spec fn spec_hall_index(dir: MotorDir) -> int {
    match dir {
        MotorDir::Up => 1,
        MotorDir::Down => 0,
        MotorDir::Stop => arbitrary(),
    }
}

/// The opposite travel direction.
pub open spec fn spec_opposite(dir: MotorDir) -> MotorDir {
    match dir {
        MotorDir::Up => MotorDir::Down,
        MotorDir::Down => MotorDir::Up,
        MotorDir::Stop => MotorDir::Stop,
    }
}

/// The floors strictly beyond `floor` in direction `dir`.
pub open spec fn spec_in_window(f: int, floor: int, dir: MotorDir) -> bool {
    match dir {
        MotorDir::Up => floor < f < N_FLOORS,
        MotorDir::Down => 0 <= f < floor,
        MotorDir::Stop => false,
    }
}

/// The merge rule for one cell, as (new status, new acknowledgement
/// set, lamp hint), given the local cell, the incoming remote cell, the
/// sender's IP and the current live peer set.
///
/// The listed pairs are the only transitions; any other pair is a
/// no-op, so a node never regresses a cell in response to a stale
/// broadcast. `Unknown` adopts anything, bootstrapping a joining node.
/// The lamp hint is `On` exactly when a pending call becomes active,
/// `Off` exactly when an active call is cleared.
pub open spec fn spec_merge_cell(
    l_status: RequestStatus,
    l_acks: Seq<Seq<char>>,
    r_status: RequestStatus,
    r_acks: Seq<Seq<char>>,
    sender: Seq<char>,
    peers: Seq<Seq<char>>,
) -> (RequestStatus, Seq<Seq<char>>, Option<Light>) {
    match (l_status, r_status) {
        (RequestStatus::Active, RequestStatus::Inactive) => (
            RequestStatus::Inactive,
            l_acks,
            Some(Light::Off),
        ),
        (RequestStatus::Inactive, RequestStatus::Pending) => (RequestStatus::Pending, l_acks, None),
        (RequestStatus::Pending, RequestStatus::Active) => (
            RequestStatus::Active,
            l_acks,
            Some(Light::On),
        ),
        (RequestStatus::Pending, RequestStatus::Pending) => {
            let acks2 = spec_ack_acks(l_acks, sender);
            if spec_covered(acks2, peers) {
                (RequestStatus::Active, acks2, Some(Light::On))
            } else {
                (RequestStatus::Pending, acks2, None)
            }
        },
        (RequestStatus::Unknown, _) => (r_status, r_acks, None),
        _ => (l_status, l_acks, None),
    }
}

/// The kind and floor of a hall button that physically exists; `None`
/// for internal buttons, for readings between floors, and for the two
/// buttons that no landing has.
pub open spec fn spec_hall_button(button: Button) -> Option<(RequestType, int)> {
    match button {
        Button::CallUp(Floor::At(f)) => if f < N_FLOORS - 1 {
            Some((RequestType::CallUp, f as int))
        } else {
            None
        },
        Button::CallDown(Floor::At(f)) => if 1 <= f && f < N_FLOORS {
            Some((RequestType::CallDown, f as int))
        } else {
            None
        },
        _ => None,
    }
}

/// A broadcast announcing that the cell of kind `t` at floor `f` is
/// served: `Inactive` with an empty acknowledgement set.
pub open spec fn spec_is_cleared_msg(m: BroadcastMessage, t: RequestType, f: int) -> bool {
    &&& m matches BroadcastMessage::RequestMessage(r)
    &&& r.request_type == t
    &&& r.floor == f
    &&& r.status == RequestStatus::Inactive
    &&& r.acknowledged_by@.len() == 0
}

/// A broadcast carrying exactly the contents of cell `c`.
pub open spec fn spec_msg_echoes_cell(m: BroadcastMessage, c: Request) -> bool {
    &&& m matches BroadcastMessage::RequestMessage(r)
    &&& r.floor == c.floor
    &&& r.request_type == c.request_type
    &&& r.status == c.status
    &&& r.acknowledged_by@ == c.acknowledged_by@
}

/// The floor recorded for `ip` in a position list, `None` when absent.
pub open spec fn spec_lookup(m: Seq<(Seq<char>, int)>, ip: Seq<char>) -> Option<int>
    decreases m.len(),
{
    if m.len() == 0 {
        None
    } else if m[0].0 == ip {
        Some(m[0].1)
    } else {
        spec_lookup(m.skip(1), ip)
    }
}

/// The IP parts of a list of lost peer ids.
pub open spec fn spec_lost_ips(lost: Seq<String>) -> Seq<Seq<char>> {
    lost.map_values(|s: String| ip_prefix(s@))
}

/// A key absent from every entry looks up to nothing.
proof fn lemma_lookup_absent(m: Seq<(Seq<char>, int)>, ip: Seq<char>)
    requires
        forall|j: int| 0 <= j < m.len() ==> (#[trigger] m[j]).0 != ip,
    ensures
        spec_lookup(m, ip) is None,
    decreases m.len(),
{
    if m.len() > 0 {
        lemma_lookup_absent(m.skip(1), ip);
    }
}

/// Overwriting the entry that holds `ip` rebinds `ip` and nothing else.
proof fn lemma_lookup_update(m: Seq<(Seq<char>, int)>, i: int, ip: Seq<char>, pos: int)
    requires
        0 <= i < m.len(),
        m[i].0 == ip,
        forall|a: int, b: int| 0 <= a < b < m.len() ==> m[a].0 != m[b].0,
    ensures
        forall|x: Seq<char>|
            #[trigger] spec_lookup(m.update(i, (ip, pos)), x) == (if x == ip {
                Some(pos)
            } else {
                spec_lookup(m, x)
            }),
    decreases i,
{
    let mu = m.update(i, (ip, pos));
    if i == 0 {
        assert(mu.skip(1) =~= m.skip(1));
        assert forall|x: Seq<char>|
            #[trigger] spec_lookup(mu, x) == (if x == ip {
                Some(pos)
            } else {
                spec_lookup(m, x)
            }) by {
            if x != ip {
                assert(m[0].0 == ip);
                assert(spec_lookup(mu, x) == spec_lookup(mu.skip(1), x));
                assert(spec_lookup(m, x) == spec_lookup(m.skip(1), x));
            }
        }
    } else {
        assert(m.skip(1)[i - 1] == m[i]);
        assert forall|a: int, b: int|
            0 <= a < b < m.skip(1).len() implies m.skip(1)[a].0 != m.skip(1)[b].0 by {
            assert(m.skip(1)[a] == m[a + 1]);
            assert(m.skip(1)[b] == m[b + 1]);
        }
        lemma_lookup_update(m.skip(1), i - 1, ip, pos);
        assert(mu.skip(1) =~= m.skip(1).update(i - 1, (ip, pos)));
        assert(m[0].0 != ip);
        assert forall|x: Seq<char>|
            #[trigger] spec_lookup(mu, x) == (if x == ip {
                Some(pos)
            } else {
                spec_lookup(m, x)
            }) by {
            assert(mu[0] == m[0]);
            if x == m[0].0 {
            } else {
                assert(spec_lookup(mu, x) == spec_lookup(mu.skip(1), x));
                assert(spec_lookup(m, x) == spec_lookup(m.skip(1), x));
            }
        }
    }
}

/// Appending a fresh key binds it and nothing else.
proof fn lemma_lookup_push(m: Seq<(Seq<char>, int)>, ip: Seq<char>, pos: int)
    requires
        forall|j: int| 0 <= j < m.len() ==> (#[trigger] m[j]).0 != ip,
    ensures
        forall|x: Seq<char>|
            #[trigger] spec_lookup(m.push((ip, pos)), x) == (if x == ip {
                Some(pos)
            } else {
                spec_lookup(m, x)
            }),
    decreases m.len(),
{
    let mp = m.push((ip, pos));
    if m.len() == 0 {
        assert forall|x: Seq<char>|
            #[trigger] spec_lookup(mp, x) == (if x == ip {
                Some(pos)
            } else {
                spec_lookup(m, x)
            }) by {
            assert(mp.len() == 1);
            assert(mp[0] == (ip, pos));
            if x == ip {
                assert(mp[0].0 == x);
                assert(spec_lookup(mp, x) == Some(mp[0].1));
            } else {
                assert(mp[0].0 != x);
                assert(mp.skip(1) =~= Seq::<(Seq<char>, int)>::empty());
                assert(spec_lookup(mp, x) == spec_lookup(mp.skip(1), x));
                assert(spec_lookup(Seq::<(Seq<char>, int)>::empty(), x) is None);
                assert(spec_lookup(m, x) is None);
            }
        }
    } else {
        assert forall|j: int| 0 <= j < m.skip(1).len() implies (#[trigger] m.skip(1)[j]).0
            != ip by {
            assert(m.skip(1)[j] == m[j + 1]);
        }
        lemma_lookup_push(m.skip(1), ip, pos);
        assert(mp.skip(1) =~= m.skip(1).push((ip, pos)));
        assert forall|x: Seq<char>|
            #[trigger] spec_lookup(mp, x) == (if x == ip {
                Some(pos)
            } else {
                spec_lookup(m, x)
            }) by {
            assert(mp[0] == m[0]);
            assert(m[0].0 != ip);
            if x == m[0].0 {
            } else {
                assert(spec_lookup(mp, x) == spec_lookup(mp.skip(1), x));
                assert(spec_lookup(m, x) == spec_lookup(m.skip(1), x));
            }
        }
    }
}

/// Removing the entry that holds `ip` unbinds `ip` and nothing else.
proof fn lemma_lookup_remove(m: Seq<(Seq<char>, int)>, i: int, ip: Seq<char>)
    requires
        0 <= i < m.len(),
        m[i].0 == ip,
        forall|a: int, b: int| 0 <= a < b < m.len() ==> m[a].0 != m[b].0,
    ensures
        forall|x: Seq<char>|
            #[trigger] spec_lookup(m.remove(i), x) == (if x == ip {
                None
            } else {
                spec_lookup(m, x)
            }),
    decreases i,
{
    let mr = m.remove(i);
    m.remove_ensures(i);
    if i == 0 {
        assert(mr =~= m.skip(1));
        assert forall|j: int| 0 <= j < m.skip(1).len() implies (#[trigger] m.skip(1)[j]).0
            != ip by {
            assert(m.skip(1)[j] == m[j + 1]);
        }
        lemma_lookup_absent(m.skip(1), ip);
        assert forall|x: Seq<char>|
            #[trigger] spec_lookup(mr, x) == (if x == ip {
                None
            } else {
                spec_lookup(m, x)
            }) by {
            assert(m[0].0 == ip);
            if x != ip {
                assert(spec_lookup(m, x) == spec_lookup(m.skip(1), x));
            }
        }
    } else {
        assert(m.skip(1)[i - 1] == m[i]);
        assert forall|a: int, b: int|
            0 <= a < b < m.skip(1).len() implies m.skip(1)[a].0 != m.skip(1)[b].0 by {
            assert(m.skip(1)[a] == m[a + 1]);
            assert(m.skip(1)[b] == m[b + 1]);
        }
        lemma_lookup_remove(m.skip(1), i - 1, ip);
        assert(mr.skip(1) =~= m.skip(1).remove(i - 1));
        assert forall|x: Seq<char>|
            #[trigger] spec_lookup(mr, x) == (if x == ip {
                None
            } else {
                spec_lookup(m, x)
            }) by {
            assert(mr[0] == m[0]);
            assert(m[0].0 != ip);
            if x == m[0].0 {
            } else {
                assert(spec_lookup(mr, x) == spec_lookup(mr.skip(1), x));
                assert(spec_lookup(m, x) == spec_lookup(m.skip(1), x));
            }
        }
    }
}

/// The cell of kind `k` at floor `f` in a flattened table.
pub open spec fn cell_at(rs: Seq<Request>, k: int, f: int) -> Request {
    rs[k * (N_FLOORS as int) + f]
}

/// Structural soundness of a table: one cell per `(kind, floor)` pair,
/// each knowing its own kind and floor.
pub open spec fn table_wf(rs: Seq<Request>) -> bool {
    &&& rs.len() == 3 * N_FLOORS
    &&& forall|k: int, f: int|
        0 <= k < 3 && 0 <= f < N_FLOORS ==> {
            let c = #[trigger] cell_at(rs, k, f);
            c.floor == f && spec_kind_index(c.request_type) == k
        }
}

/// No acknowledgement set in the table holds an IP twice.
pub open spec fn table_acks_clean(rs: Seq<Request>) -> bool {
    forall|k: int, f: int|
        0 <= k < 3 && 0 <= f < N_FLOORS ==> (#[trigger] cell_at(rs, k, f)).acks_no_dup()
}

/// No IP keyed twice in a position list.
pub open spec fn keys_unique(m: Seq<(Seq<char>, int)>) -> bool {
    forall|a: int, b: int| 0 <= a < b < m.len() ==> m[a].0 != m[b].0
}

/// A table as a node starts with it: every legal cell `Unknown` with an
/// empty acknowledgement set, the two illegal cells pinned `Inactive`.
pub open spec fn fresh_table(rs: Seq<Request>) -> bool {
    forall|k: int, f: int|
        0 <= k < 3 && 0 <= f < N_FLOORS ==> {
            let c = #[trigger] cell_at(rs, k, f);
            c.acknowledged_by@.len() == 0 && c.status == (if spec_illegal_cell(
                c.request_type,
                f,
            ) {
                RequestStatus::Inactive
            } else {
                RequestStatus::Unknown
            })
        }
}

/// One node's replicated state: the 3 x `N_FLOORS` request table, the
/// live peer ids, the last known floor of every peer, and the node's
/// own IP for the assignment tie-break.
pub struct RequestHandler {
    /// The table, flattened row-major: the cell of kind `k` at floor `f`
    /// sits at index `k * N_FLOORS + f`.
    pub requests: Vec<Request>,
    /// Live peer ids of the form `"<ip>:<unique-id>"`.
    pub peers: Vec<String>,
    /// Last known floor of each peer, keyed by bare IP.
    pub peer_positions: Vec<(String, usize)>,
    /// This node's own IP, the tie-break key of the assignment.
    pub local_ip: String,
}

impl RequestHandler {
    /// The cell of kind `k` at floor `f`.
    pub open spec fn cell(&self, k: int, f: int) -> Request {
        cell_at(self.requests@, k, f)
    }

    /// The peer position map, as (IP characters, floor) pairs.
    pub open spec fn positions_view(&self) -> Seq<(Seq<char>, int)> {
        self.peer_positions@.map_values(|p: (String, usize)| (p.0@, p.1 as int))
    }

    /// Structural soundness: one cell per `(kind, floor)` pair, each
    /// knowing its own kind and floor, and no peer IP recorded twice.
    pub open spec fn wf(&self) -> bool {
        &&& table_wf(self.requests@)
        &&& keys_unique(self.positions_view())
    }

    /// No cell's acknowledgement set holds an IP twice.
    pub open spec fn acks_clean(&self) -> bool {
        table_acks_clean(self.requests@)
    }

    /// The two illegal cells show no outstanding call.
    pub open spec fn illegal_inactive(&self) -> bool {
        &&& self.cell(1, N_FLOORS - 1 as int).status == RequestStatus::Inactive
        &&& self.cell(0, 0).status == RequestStatus::Inactive
    }

    /// A fresh node: every legal cell `Unknown` with an empty
    /// acknowledgement set, the two illegal cells pinned `Inactive`, no
    /// peers and no positions yet.
    pub fn new(local_ip: String) -> (h: RequestHandler)
        ensures
            h.wf(),
            h.acks_clean(),
            h.illegal_inactive(),
            h.peers@.len() == 0,
            h.positions_view().len() == 0,
            h.local_ip == local_ip,
            fresh_table(h.requests@),
    {
        let mut requests: Vec<Request> = Vec::new();
        let mut k: usize = 0;
        while k < 3
            invariant
                k <= 3,
                requests@.len() == k * N_FLOORS,
                forall|k2: int, f2: int|
                    0 <= k2 < k && 0 <= f2 < N_FLOORS ==> {
                        let c = #[trigger] requests@[k2 * (N_FLOORS as int) + f2];
                        &&& c.floor == f2
                        &&& spec_kind_index(c.request_type) == k2
                        &&& c.acknowledged_by@.len() == 0
                        &&& c.status == (if spec_illegal_cell(c.request_type, f2) {
                            RequestStatus::Inactive
                        } else {
                            RequestStatus::Unknown
                        })
                    },
            decreases 3 - k,
        {
            let t = if k == 0 {
                RequestType::CallDown
            } else if k == 1 {
                RequestType::CallUp
            } else {
                RequestType::Internal
            };
            let mut f: usize = 0;
            while f < N_FLOORS
                invariant
                    f <= N_FLOORS,
                    k < 3,
                    spec_kind_index(t) == k,
                    requests@.len() == k * N_FLOORS + f,
                    forall|k2: int, f2: int|
                        0 <= k2 < k && 0 <= f2 < N_FLOORS ==> {
                            let c = #[trigger] requests@[k2 * (N_FLOORS as int) + f2];
                            &&& c.floor == f2
                            &&& spec_kind_index(c.request_type) == k2
                            &&& c.acknowledged_by@.len() == 0
                            &&& c.status == (if spec_illegal_cell(c.request_type, f2) {
                                RequestStatus::Inactive
                            } else {
                                RequestStatus::Unknown
                            })
                        },
                    forall|f2: int|
                        0 <= f2 < f ==> {
                            let c = #[trigger] requests@[k * (N_FLOORS as int) + f2];
                            &&& c.floor == f2
                            &&& spec_kind_index(c.request_type) == k
                            &&& c.acknowledged_by@.len() == 0
                            &&& c.status == (if spec_illegal_cell(c.request_type, f2) {
                                RequestStatus::Inactive
                            } else {
                                RequestStatus::Unknown
                            })
                        },
                decreases N_FLOORS - f,
            {
                let status = if illegal_cell(t, f) {
                    RequestStatus::Inactive
                } else {
                    RequestStatus::Unknown
                };
                requests.push(
                    Request {
                        floor: f,
                        request_type: t,
                        status,
                        acknowledged_by: Vec::new(),
                    },
                );
                f = f + 1;
            }
            k = k + 1;
        }
        RequestHandler { requests, peers: Vec::new(), peer_positions: Vec::new(), local_ip }
    }

    /// Read access to the cell of a kind and floor.
    pub fn get_request(&self, request_type: RequestType, floor: usize) -> (r: &Request)
        requires
            self.wf(),
            floor < N_FLOORS,
        ensures
            *r == self.cell(spec_kind_index(request_type), floor as int),
    {
        let k = kind_index(request_type);
        &self.requests[k * N_FLOORS + floor]
    }

    /// Replace the cell named by `request`'s own kind and floor. The
    /// protocol mutates cells only through the merge rule; this is the
    /// raw write behind a cabin button activating its internal cell,
    /// and the way a test lays out a table.
    pub fn set_request(&mut self, request: Request)
        requires
            old(self).wf(),
            request.floor < N_FLOORS,
        ensures
            final(self).wf(),
            final(self).peers == old(self).peers,
            final(self).peer_positions == old(self).peer_positions,
            final(self).local_ip == old(self).local_ip,
            final(self).cell(
                spec_kind_index(request.request_type),
                request.floor as int,
            ) == request,
            forall|k2: int, f2: int|
                0 <= k2 < 3 && 0 <= f2 < N_FLOORS && !(k2 == spec_kind_index(request.request_type)
                    && f2 == request.floor) ==> final(self).cell(k2, f2) == old(self).cell(k2, f2),
            old(self).acks_clean() && request.acks_no_dup() ==> final(self).acks_clean(),
    {
        let k = kind_index(request.request_type);
        let floor = request.floor;
        self.requests.set(k * N_FLOORS + floor, request);
        proof {
            let kk = k as int;
            let ff = floor as int;
            assert(N_FLOORS == 4);
            assert(self.cell(kk, ff) == request);
            assert forall|k2: int, f2: int|
                0 <= k2 < 3 && 0 <= f2 < N_FLOORS && !(k2 == kk && f2 == ff) implies self.cell(
                k2,
                f2,
            ) == old(self).cell(k2, f2) by {
                assert(k2 * (N_FLOORS as int) + f2 != kk * (N_FLOORS as int) + ff);
            }
            assert(self.requests@.len() == 3 * N_FLOORS);
            assert(self.positions_view() == old(self).positions_view());
            assert forall|k2: int, f2: int| 0 <= k2 < 3 && 0 <= f2 < N_FLOORS implies {
                let c = #[trigger] cell_at(self.requests@, k2, f2);
                c.floor == f2 && spec_kind_index(c.request_type) == k2
            } by {
                assert(cell_at(self.requests@, k2, f2) == self.cell(k2, f2));
                if !(k2 == kk && f2 == ff) {
                    assert(cell_at(old(self).requests@, k2, f2) == old(self).cell(k2, f2));
                    assert(old(self).cell(k2, f2).floor == f2);
                }
            }
            if old(self).acks_clean() && request.acks_no_dup() {
                assert forall|k2: int, f2: int|
                    0 <= k2 < 3 && 0 <= f2 < N_FLOORS implies (#[trigger] cell_at(
                    self.requests@,
                    k2,
                    f2,
                )).acks_no_dup() by {
                    assert(cell_at(self.requests@, k2, f2) == self.cell(k2, f2));
                    if !(k2 == kk && f2 == ff) {
                        assert(cell_at(old(self).requests@, k2, f2) == old(self).cell(k2, f2));
                        assert(old(self).cell(k2, f2).acks_no_dup());
                    }
                }
            }
        }
    }

    /// Apply the merge rule to the cell named by an incoming remote
    /// cell, and report the lamp hint: `Some(On)` exactly when the cell
    /// went from pending to active, `Some(Off)` exactly when it went
    /// from active to inactive. The hint is the only authoritative
    /// source for hall lamps, so every live node lights the same lamps.
    ///
    /// A remote cell naming no real button — a floor out of range, or
    /// one of the two illegal hall cells — is skipped entirely.
    pub fn merge_incoming_request(&mut self, remote_request: &Request, remote_ip: String) -> (r:
        Option<Light>)
        requires
            old(self).wf(),
        ensures
            final(self).wf(),
            final(self).peers == old(self).peers,
            final(self).peer_positions == old(self).peer_positions,
            final(self).local_ip == old(self).local_ip,
            (remote_request.floor >= N_FLOORS || spec_illegal_cell(
                remote_request.request_type,
                remote_request.floor as int,
            )) ==> (final(self).requests == old(self).requests && r is None),
            (remote_request.floor < N_FLOORS && !spec_illegal_cell(
                remote_request.request_type,
                remote_request.floor as int,
            )) ==> ({
                let k = spec_kind_index(remote_request.request_type);
                let f = remote_request.floor as int;
                let c0 = old(self).cell(k, f);
                let t = spec_merge_cell(
                    c0.status,
                    c0.acks(),
                    remote_request.status,
                    remote_request.acks(),
                    remote_ip@,
                    views_of(old(self).peers@),
                );
                let c1 = final(self).cell(k, f);
                &&& c1.status == t.0
                &&& c1.acks() == t.1
                &&& r == t.2
                &&& c1.floor == c0.floor
                &&& c1.request_type == c0.request_type
                &&& forall|k2: int, f2: int|
                    0 <= k2 < 3 && 0 <= f2 < N_FLOORS && !(k2 == k && f2 == f)
                        ==> final(self).cell(k2, f2) == old(self).cell(k2, f2)
            }),
            old(self).illegal_inactive() ==> final(self).illegal_inactive(),
            old(self).acks_clean() && remote_request.acks_no_dup() ==> final(self).acks_clean(),
    {
        let floor = remote_request.floor;
        if floor >= N_FLOORS {
            return None;
        }
        if illegal_cell(remote_request.request_type, floor) {
            return None;
        }
        let k = kind_index(remote_request.request_type);
        let idx = k * N_FLOORS + floor;
        let mut cell = Request {
            floor: 0,
            request_type: RequestType::CallUp,
            status: RequestStatus::Unknown,
            acknowledged_by: Vec::new(),
        };
        self.requests.set_and_swap(idx, &mut cell);
        let ghost c0 = old(self).cell(k as int, floor as int);
        proof {
            assert(cell == c0);
        }
        let local_status = cell.status;
        let remote_status = remote_request.status;
        let result: Option<Light> = match (local_status, remote_status) {
            (RequestStatus::Active, RequestStatus::Inactive) => {
                cell.move_to_inactive();
                Some(Light::Off)
            },
            (RequestStatus::Inactive, RequestStatus::Pending) => {
                cell.move_to_pending();
                None
            },
            (RequestStatus::Pending, RequestStatus::Active) => {
                cell.move_to_active();
                Some(Light::On)
            },
            (RequestStatus::Pending, RequestStatus::Pending) => {
                let new_status = cell.update_acknowledgements(&self.peers, remote_ip);
                if matches!(new_status, RequestStatus::Active) {
                    Some(Light::On)
                } else {
                    None
                }
            },
            (RequestStatus::Unknown, _) => {
                cell.handle_unknown_local(remote_request);
                None
            },
            _ => None,
        };
        self.requests.set(idx, cell);
        proof {
            let kk = k as int;
            let ff = floor as int;
            assert(N_FLOORS == 4);
            let t = spec_merge_cell(
                c0.status,
                c0.acks(),
                remote_request.status,
                remote_request.acks(),
                remote_ip@,
                views_of(old(self).peers@),
            );
            assert(self.cell(kk, ff).status == t.0);
            assert(self.cell(kk, ff).acks() == t.1);
            assert(result == t.2);
            assert forall|k2: int, f2: int|
                0 <= k2 < 3 && 0 <= f2 < N_FLOORS && !(k2 == kk && f2 == ff) implies self.cell(
                k2,
                f2,
            ) == old(self).cell(k2, f2) by {
                assert(k2 * (N_FLOORS as int) + f2 != kk * (N_FLOORS as int) + ff);
            }
            assert forall|k2: int, f2: int| 0 <= k2 < 3 && 0 <= f2 < N_FLOORS implies {
                let c = #[trigger] cell_at(self.requests@, k2, f2);
                c.floor == f2 && spec_kind_index(c.request_type) == k2
            } by {
                assert(cell_at(self.requests@, k2, f2) == self.cell(k2, f2));
                if !(k2 == kk && f2 == ff) {
                    assert(cell_at(old(self).requests@, k2, f2) == old(self).cell(k2, f2));
                    assert(old(self).cell(k2, f2).floor == f2);
                }
            }
            assert(self.positions_view() == old(self).positions_view());
            if old(self).acks_clean() && remote_request.acks_no_dup() {
                assert forall|k2: int, f2: int|
                    0 <= k2 < 3 && 0 <= f2 < N_FLOORS implies (#[trigger] cell_at(
                    self.requests@,
                    k2,
                    f2,
                )).acks_no_dup() by {
                    assert(cell_at(self.requests@, k2, f2) == self.cell(k2, f2));
                    if !(k2 == kk && f2 == ff) {
                        assert(cell_at(old(self).requests@, k2, f2) == old(self).cell(k2, f2));
                        assert(old(self).cell(k2, f2).acks_no_dup());
                    }
                }
            }
        }
        result
    }

    /// Whether this node owns the call in `request` when its own cabin
    /// stands at `local_pos`: it beats every recorded peer on distance,
    /// with ties going to the lexicographically smaller IP.
    pub open spec fn spec_assigned(&self, rfloor: int, local_pos: int) -> bool {
        forall|i: int|
            0 <= i < self.positions_view().len() ==> {
                let p = #[trigger] self.positions_view()[i];
                ||| spec_cost(rfloor, local_pos) < spec_cost(rfloor, p.1)
                ||| (spec_cost(rfloor, local_pos) == spec_cost(rfloor, p.1) && lex_le(
                    self.local_ip@,
                    p.0,
                ))
            }
    }

    /// Distance between the floor of `request` and a cabin at `position`.
    pub fn calculate_cost(&self, request: &Request, position: usize) -> (cost: usize)
        ensures
            cost == spec_cost(request.floor as int, position as int),
    {
        if request.floor >= position {
            request.floor - position
        } else {
            position - request.floor
        }
    }

    /// Whether this node's cabin, at `local_position`, should serve
    /// `request` rather than leave it to a peer. Every node evaluates
    /// this on the same replicated state and the answers agree, so each
    /// active hall call is owned by exactly one node.
    pub fn request_is_assigned_locally(&self, request: &Request, local_position: usize) -> (r:
        bool)
        ensures
            r == self.spec_assigned(request.floor as int, local_position as int),
    {
        let local_cost = self.calculate_cost(request, local_position);
        let n = self.peer_positions.len();
        let mut i: usize = 0;
        while i < n
            invariant
                i <= n,
                n == self.positions_view().len(),
                local_cost == spec_cost(request.floor as int, local_position as int),
                forall|j: int|
                    0 <= j < i ==> {
                        let p = #[trigger] self.positions_view()[j];
                        ||| spec_cost(request.floor as int, local_position as int) < spec_cost(
                            request.floor as int,
                            p.1,
                        )
                        ||| (spec_cost(request.floor as int, local_position as int) == spec_cost(
                            request.floor as int,
                            p.1,
                        ) && lex_le(self.local_ip@, p.0))
                    },
            decreases n - i,
        {
            proof {
                assert(self.positions_view()[i as int] == (
                    self.peer_positions@[i as int].0@,
                    self.peer_positions@[i as int].1 as int,
                ));
            }
            let entry = &self.peer_positions[i];
            let peer_cost = self.calculate_cost(request, entry.1);
            if peer_cost < local_cost {
                return false;
            }
            if peer_cost == local_cost && !str_lex_le(self.local_ip.as_str(), entry.0.as_str()) {
                return false;
            }
            i = i + 1;
        }
        true
    }

    /// Whether the cabin should stop at `floor` travelling `dir`: its
    /// internal cell there is active, or the hall cell matching the
    /// direction is active and locally assigned. The cabin asks this on
    /// arrival at `floor`, so the assignment is judged from `floor`
    /// itself: the local cost is zero and the tie-break decides against
    /// any peer standing on the same floor.
    pub open spec fn spec_should_stop(&self, floor: int, dir: MotorDir) -> bool {
        ||| self.cell(2, floor).status == RequestStatus::Active
        ||| (self.cell(spec_hall_index(dir), floor).status == RequestStatus::Active
            && self.spec_assigned(floor, floor))
    }

    /// Exec decision behind [`Self::spec_should_stop`].
    pub fn should_stop(&self, floor: usize, direction: MotorDir) -> (r: bool)
        requires
            self.wf(),
            floor < N_FLOORS,
            !(direction is Stop),
        ensures
            r == self.spec_should_stop(floor as int, direction),
    {
        let internal = &self.requests[2 * N_FLOORS + floor];
        if matches!(internal.status, RequestStatus::Active) {
            return true;
        }
        let hall_row = match direction {
            MotorDir::Up => 1,
            MotorDir::Down => 0,
            MotorDir::Stop => 0,
        };
        let hall = &self.requests[hall_row * N_FLOORS + floor];
        proof {
            assert(*hall == self.cell(spec_hall_index(direction), floor as int));
            assert(hall.floor == floor);
        }
        if matches!(hall.status, RequestStatus::Active) {
            self.request_is_assigned_locally(hall, floor)
        } else {
            false
        }
    }

    /// Whether any active, locally assigned request lies strictly
    /// beyond `floor` in direction `dir`. Internal calls count as
    /// locally assigned always; hall calls only when this node owns
    /// them.
    pub open spec fn spec_requests_in_direction(&self, floor: int, dir: MotorDir) -> bool {
        exists|k: int, f: int|
            0 <= k < 3 && spec_in_window(f, floor, dir) && (#[trigger] self.cell(k, f)).status
                == RequestStatus::Active && (k == 2 || self.spec_assigned(f, floor))
    }

    /// Scan the window of floors beyond `floor` in `dir` for an active,
    /// locally assigned request of any kind.
    fn requests_in_direction(&self, floor: usize, direction: MotorDir) -> (r: bool)
        requires
            self.wf(),
            floor < N_FLOORS,
            !(direction is Stop),
        ensures
            r == self.spec_requests_in_direction(floor as int, direction),
    {
        let (lo, hi) = match direction {
            MotorDir::Down => (0usize, floor),
            MotorDir::Up => (floor + 1, N_FLOORS),
            MotorDir::Stop => (0usize, 0usize),
        };
        proof {
            assert(forall|f: int|
                spec_in_window(f, floor as int, direction) <==> lo <= f < hi);
        }
        let mut f = lo;
        while f < hi
            invariant
                lo <= f,
                hi <= N_FLOORS,
                self.wf(),
                floor < N_FLOORS,
                forall|f2: int|
                    spec_in_window(f2, floor as int, direction) <==> lo <= f2 < hi,
                forall|k2: int, f2: int|
                    0 <= k2 < 3 && lo <= f2 < f ==> !((#[trigger] self.cell(k2, f2)).status
                        == RequestStatus::Active && (k2 == 2 || self.spec_assigned(
                        f2,
                        floor as int,
                    ))),
            decreases hi - f,
        {
            let mut k: usize = 0;
            while k < 3
                invariant
                    k <= 3,
                    lo <= f < hi,
                    hi <= N_FLOORS,
                    self.wf(),
                    floor < N_FLOORS,
                    forall|f2: int|
                        spec_in_window(f2, floor as int, direction) <==> lo <= f2 < hi,
                    forall|k2: int|
                        0 <= k2 < k ==> !((#[trigger] self.cell(k2, f as int)).status
                            == RequestStatus::Active && (k2 == 2 || self.spec_assigned(
                            f as int,
                            floor as int,
                        ))),
                decreases 3 - k,
            {
                let cell = &self.requests[k * N_FLOORS + f];
                proof {
                    assert(*cell == self.cell(k as int, f as int));
                    assert(cell.floor == f);
                    assert(spec_in_window(f as int, floor as int, direction));
                }
                if matches!(cell.status, RequestStatus::Active) {
                    if k == 2 {
                        proof {
                            assert(self.cell(2, f as int).status == RequestStatus::Active);
                            assert(self.spec_requests_in_direction(floor as int, direction));
                        }
                        return true;
                    }
                    if self.request_is_assigned_locally(cell, floor) {
                        proof {
                            assert(self.cell(k as int, f as int).status == RequestStatus::Active);
                            assert(self.spec_assigned(f as int, floor as int));
                            assert(self.spec_requests_in_direction(floor as int, direction));
                        }
                        return true;
                    }
                }
                k = k + 1;
            }
            f = f + 1;
        }
        false
    }

    /// Whether the cabin should keep travelling `dir` past `floor`:
    /// some active, locally assigned request lies further on.
    pub fn should_continue(&self, floor: usize, direction: MotorDir) -> (r: bool)
        requires
            self.wf(),
            floor < N_FLOORS,
            !(direction is Stop),
        ensures
            r == self.spec_requests_in_direction(floor as int, direction),
    {
        self.requests_in_direction(floor, direction)
    }

    /// Whether the cabin at `floor` travelling `dir` should turn
    /// around: the opposite hall cell at this very floor is active, or
    /// an active locally assigned request lies in the opposite window.
    pub open spec fn spec_should_change_direction(&self, floor: int, dir: MotorDir) -> bool {
        ||| self.cell(spec_hall_index(spec_opposite(dir)), floor).status == RequestStatus::Active
        ||| self.spec_requests_in_direction(floor, spec_opposite(dir))
    }

    /// Exec decision behind [`Self::spec_should_change_direction`].
    pub fn should_change_direction(&self, floor: usize, direction: MotorDir) -> (r: bool)
        requires
            self.wf(),
            floor < N_FLOORS,
            !(direction is Stop),
        ensures
            r == self.spec_should_change_direction(floor as int, direction),
    {
        let opposite_direction = match direction {
            MotorDir::Down => MotorDir::Up,
            MotorDir::Up => MotorDir::Down,
            MotorDir::Stop => MotorDir::Stop,
        };
        let opposite_row = match direction {
            MotorDir::Up => 0,
            MotorDir::Down => 1,
            MotorDir::Stop => 0,
        };
        let request_opposite = &self.requests[opposite_row * N_FLOORS + floor];
        proof {
            assert(*request_opposite == self.cell(
                spec_hall_index(spec_opposite(direction)),
                floor as int,
            ));
        }
        if matches!(request_opposite.status, RequestStatus::Active) {
            return true;
        }
        self.requests_in_direction(floor, opposite_direction)
    }

    /// Bind `ip` to `position`, overwriting any earlier entry for it.
    fn upsert_position(&mut self, ip: String, position: usize)
        requires
            old(self).wf(),
        ensures
            final(self).wf(),
            final(self).requests == old(self).requests,
            final(self).peers == old(self).peers,
            final(self).local_ip == old(self).local_ip,
            forall|x: Seq<char>|
                #[trigger] spec_lookup(final(self).positions_view(), x) == (if x == ip@ {
                    Some(position as int)
                } else {
                    spec_lookup(old(self).positions_view(), x)
                }),
    {
        let ghost ip_v = ip@;
        let ghost orig = self.positions_view();
        let n = self.peer_positions.len();
        let mut i: usize = 0;
        while i < n
            invariant
                i <= n,
                *self == *old(self),
                self.wf(),
                ip@ == ip_v,
                orig == old(self).positions_view(),
                n == self.positions_view().len(),
                forall|j: int| 0 <= j < i ==> (#[trigger] self.positions_view()[j]).0 != ip_v,
            decreases n - i,
        {
            proof {
                assert(self.positions_view()[i as int] == (
                    self.peer_positions@[i as int].0@,
                    self.peer_positions@[i as int].1 as int,
                ));
            }
            if str_equal(&self.peer_positions[i].0, &ip) {
                self.peer_positions.set(i, (ip, position));
                proof {
                    assert(self.positions_view() =~= orig.update(
                        i as int,
                        (ip_v, position as int),
                    ));
                    lemma_lookup_update(orig, i as int, ip_v, position as int);
                    assert forall|a: int, b: int|
                        0 <= a < b < self.positions_view().len() implies self.positions_view()[a].0
                        != self.positions_view()[b].0 by {
                        assert(self.positions_view()[a].0 == orig[a].0);
                        assert(self.positions_view()[b].0 == orig[b].0);
                    }
                }
                return;
            }
            i = i + 1;
        }
        self.peer_positions.push((ip, position));
        proof {
            assert(self.positions_view() =~= orig.push((ip_v, position as int)));
            lemma_lookup_push(orig, ip_v, position as int);
            assert forall|a: int, b: int|
                0 <= a < b < self.positions_view().len() implies self.positions_view()[a].0
                != self.positions_view()[b].0 by {
                assert(b < orig.len() + 1);
                assert(self.positions_view()[a].0 == orig[a].0);
                if b < orig.len() {
                    assert(self.positions_view()[b].0 == orig[b].0);
                } else {
                    assert(self.positions_view()[b].0 == ip_v);
                }
            }
        }
    }

    /// Drop the entry bound to `ip`, if any.
    fn remove_position(&mut self, ip: &String)
        requires
            old(self).wf(),
        ensures
            final(self).wf(),
            final(self).requests == old(self).requests,
            final(self).peers == old(self).peers,
            final(self).local_ip == old(self).local_ip,
            forall|x: Seq<char>|
                #[trigger] spec_lookup(final(self).positions_view(), x) == (if x == ip@ {
                    None
                } else {
                    spec_lookup(old(self).positions_view(), x)
                }),
    {
        let ghost ip_v = ip@;
        let ghost orig = self.positions_view();
        let n = self.peer_positions.len();
        let mut i: usize = 0;
        while i < n
            invariant
                i <= n,
                *self == *old(self),
                self.wf(),
                ip@ == ip_v,
                orig == old(self).positions_view(),
                n == self.positions_view().len(),
                forall|j: int| 0 <= j < i ==> (#[trigger] self.positions_view()[j]).0 != ip_v,
            decreases n - i,
        {
            proof {
                assert(self.positions_view()[i as int] == (
                    self.peer_positions@[i as int].0@,
                    self.peer_positions@[i as int].1 as int,
                ));
            }
            if str_equal(&self.peer_positions[i].0, ip) {
                self.peer_positions.remove(i);
                proof {
                    assert(self.positions_view() =~= orig.remove(i as int));
                    lemma_lookup_remove(orig, i as int, ip_v);
                    orig.remove_ensures(i as int);
                    assert forall|a: int, b: int|
                        0 <= a < b < self.positions_view().len() implies self.positions_view()[a].0
                        != self.positions_view()[b].0 by {
                        let oa = if a < i as int {
                            a
                        } else {
                            a + 1
                        };
                        let ob = if b < i as int {
                            b
                        } else {
                            b + 1
                        };
                        assert(self.positions_view()[a] == orig[oa]);
                        assert(self.positions_view()[b] == orig[ob]);
                    }
                }
                return;
            }
            i = i + 1;
        }
        proof {
            lemma_lookup_absent(orig, ip_v);
        }
    }

    /// Record a peer's `Position` broadcast: its cabin now stands at
    /// `position`. Newest report wins.
    pub fn handle_position_update(&mut self, remote_ip: String, position: usize)
        requires
            old(self).wf(),
        ensures
            final(self).wf(),
            final(self).requests == old(self).requests,
            final(self).peers == old(self).peers,
            final(self).local_ip == old(self).local_ip,
            forall|x: Seq<char>|
                #[trigger] spec_lookup(final(self).positions_view(), x) == (if x == remote_ip@ {
                    Some(position as int)
                } else {
                    spec_lookup(old(self).positions_view(), x)
                }),
    {
        self.upsert_position(remote_ip, position);
    }

    /// React to a change of the live peer set: adopt the new peer list,
    /// forget the positions of the peers that disappeared, and start
    /// a newly appeared peer at floor 0. A peer that vanished keeps its
    /// acknowledgements in flight — already-acked IPs never cause a
    /// regression — but stops counting towards coverage at once.
    pub fn handle_peer_update(&mut self, peers: PeerUpdate)
        requires
            old(self).wf(),
        ensures
            final(self).wf(),
            final(self).requests == old(self).requests,
            final(self).local_ip == old(self).local_ip,
            final(self).peers == peers.peers,
            forall|x: Seq<char>|
                #[trigger] spec_lookup(final(self).positions_view(), x) == (if peers.new matches
                    Some(np) && x == ip_prefix(np@) {
                    Some(0)
                } else if spec_lost_ips(peers.lost@).contains(x) {
                    None
                } else {
                    spec_lookup(old(self).positions_view(), x)
                }),
    {
        let PeerUpdate { peers: new_peers, new, lost } = peers;
        self.peers = new_peers;
        let ghost orig = self.positions_view();
        let ghost lost_v = lost@;
        let n = lost.len();
        let mut i: usize = 0;
        while i < n
            invariant
                i <= n,
                lost@ == lost_v,
                n == lost_v.len(),
                self.wf(),
                self.requests == old(self).requests,
                self.local_ip == old(self).local_ip,
                self.peers == peers.peers,
                orig == old(self).positions_view(),
                forall|x: Seq<char>|
                    #[trigger] spec_lookup(self.positions_view(), x) == (if spec_lost_ips(
                        lost_v,
                    ).take(i as int).contains(x) {
                        None
                    } else {
                        spec_lookup(orig, x)
                    }),
            decreases n - i,
        {
            let ip = ip_of(lost[i].as_str());
            self.remove_position(&ip);
            proof {
                assert(spec_lost_ips(lost_v)[i as int] == ip_prefix(lost_v[i as int]@));
                assert(spec_lost_ips(lost_v).take(i + 1) =~= spec_lost_ips(lost_v).take(
                    i as int,
                ).push(ip_prefix(lost_v[i as int]@)));
                assert forall|x: Seq<char>|
                    #[trigger] spec_lookup(self.positions_view(), x) == (if spec_lost_ips(
                        lost_v,
                    ).take(i + 1).contains(x) {
                        None
                    } else {
                        spec_lookup(orig, x)
                    }) by {
                    let t1 = spec_lost_ips(lost_v).take(i + 1);
                    let t0 = spec_lost_ips(lost_v).take(i as int);
                    assert(t1.contains(x) <==> t0.contains(x) || x == ip_prefix(
                        lost_v[i as int]@,
                    )) by {
                        if t1.contains(x) {
                            let w = choose|w: int| 0 <= w < t1.len() && t1[w] == x;
                            if w < i as int {
                                assert(t0[w] == x);
                            }
                        }
                        if t0.contains(x) {
                            let w = choose|w: int| 0 <= w < t0.len() && t0[w] == x;
                            assert(t1[w] == x);
                        }
                        if x == ip_prefix(lost_v[i as int]@) {
                            assert(t1[i as int] == x);
                        }
                    }
                }
            }
            i = i + 1;
        }
        proof {
            assert(spec_lost_ips(lost_v).take(n as int) =~= spec_lost_ips(lost_v));
        }
        match new {
            Some(addr) => {
                let ip = ip_of(addr.as_str());
                self.upsert_position(ip, 0);
            },
            None => {},
        }
    }

    /// The message that pressing `button` should put on the wire:
    /// `Pending` with an empty acknowledgement set for a hall button
    /// that exists, nothing for an internal button (internal calls are
    /// never transmitted) and nothing for the two buttons that do not
    /// exist, which thus never reach any lamp or any peer.
    pub fn announce_new_request(&self, button: &Button) -> (m: Option<BroadcastMessage>)
        ensures
            spec_hall_button(*button) is None ==> m is None,
            spec_hall_button(*button) matches Some(p) ==> (m matches Some(
                BroadcastMessage::RequestMessage(r),
            ) && r.request_type == p.0 && r.floor == p.1 && r.status == RequestStatus::Pending
                && r.acknowledged_by@.len() == 0),
    {
        let (request_type, floor) = match button {
            Button::CallUp(Floor::At(f)) => (RequestType::CallUp, *f),
            Button::CallDown(Floor::At(f)) => (RequestType::CallDown, *f),
            _ => {
                return None;
            },
        };
        if floor >= N_FLOORS || illegal_cell(request_type, floor) {
            return None;
        }
        Some(
            BroadcastMessage::RequestMessage(
                Request {
                    floor,
                    request_type,
                    status: RequestStatus::Pending,
                    acknowledged_by: Vec::new(),
                },
            ),
        )
    }

    /// The messages that clear a floor when the door opens there: the
    /// internal cell, and the hall cell matching the travel direction
    /// where that cell exists, both `Inactive` with empty
    /// acknowledgement sets. The illegal hall cells are never
    /// broadcast.
    pub fn announce_requests_cleared(&self, floor: usize, direction: MotorDir) -> (msgs: Vec<
        BroadcastMessage,
    >)
        requires
            floor < N_FLOORS,
            !(direction is Stop),
        ensures
            spec_is_cleared_msg(msgs@[0], RequestType::Internal, floor as int),
            ({
                let hall_t = if direction is Up {
                    RequestType::CallUp
                } else {
                    RequestType::CallDown
                };
                if spec_illegal_cell(hall_t, floor as int) {
                    msgs@.len() == 1
                } else {
                    msgs@.len() == 2 && spec_is_cleared_msg(msgs@[1], hall_t, floor as int)
                }
            }),
    {
        let hall_request_type = match direction {
            MotorDir::Up => RequestType::CallUp,
            MotorDir::Down => RequestType::CallDown,
            MotorDir::Stop => RequestType::CallUp,
        };
        let mut msgs: Vec<BroadcastMessage> = Vec::new();
        msgs.push(
            BroadcastMessage::RequestMessage(
                Request {
                    floor,
                    request_type: RequestType::Internal,
                    status: RequestStatus::Inactive,
                    acknowledged_by: Vec::new(),
                },
            ),
        );
        if !illegal_cell(hall_request_type, floor) {
            msgs.push(
                BroadcastMessage::RequestMessage(
                    Request {
                        floor,
                        request_type: hall_request_type,
                        status: RequestStatus::Inactive,
                        acknowledged_by: Vec::new(),
                    },
                ),
            );
        }
        msgs
    }

    /// The periodic refresh: one message per legal hall cell, echoing
    /// its current contents — down calls for floors `1..N_FLOORS`, then
    /// up calls for floors `0..N_FLOORS-1`. Internal cells are never
    /// transmitted, illegal cells never broadcast.
    pub fn announce_all_requests(&self) -> (msgs: Vec<BroadcastMessage>)
        requires
            self.wf(),
        ensures
            msgs@.len() == 2 * N_FLOORS - 2,
            forall|f: int|
                1 <= f < N_FLOORS ==> spec_msg_echoes_cell(#[trigger] msgs@[f - 1], self.cell(0, f)),
            forall|f: int|
                0 <= f < N_FLOORS - 1 ==> spec_msg_echoes_cell(
                    #[trigger] msgs@[N_FLOORS - 1 + f],
                    self.cell(1, f),
                ),
    {
        let mut msgs: Vec<BroadcastMessage> = Vec::new();
        let mut f: usize = 1;
        while f < N_FLOORS
            invariant
                1 <= f <= N_FLOORS,
                self.wf(),
                msgs@.len() == f - 1,
                forall|f2: int|
                    1 <= f2 < f ==> spec_msg_echoes_cell(#[trigger] msgs@[f2 - 1], self.cell(0, f2)),
            decreases N_FLOORS - f,
        {
            let cell = &self.requests[0 * N_FLOORS + f];
            proof {
                assert(*cell == self.cell(0, f as int));
            }
            msgs.push(
                BroadcastMessage::RequestMessage(
                    Request {
                        floor: cell.floor,
                        request_type: cell.request_type,
                        status: cell.status,
                        acknowledged_by: clone_strings(&cell.acknowledged_by),
                    },
                ),
            );
            f = f + 1;
        }
        let mut f2: usize = 0;
        while f2 < N_FLOORS - 1
            invariant
                f2 <= N_FLOORS - 1,
                self.wf(),
                msgs@.len() == N_FLOORS - 1 + f2,
                forall|f3: int|
                    1 <= f3 < N_FLOORS ==> spec_msg_echoes_cell(
                        #[trigger] msgs@[f3 - 1],
                        self.cell(0, f3),
                    ),
                forall|f3: int|
                    0 <= f3 < f2 ==> spec_msg_echoes_cell(
                        #[trigger] msgs@[N_FLOORS - 1 + f3],
                        self.cell(1, f3),
                    ),
            decreases N_FLOORS - 1 - f2,
        {
            let cell = &self.requests[1 * N_FLOORS + f2];
            proof {
                assert(*cell == self.cell(1, f2 as int));
            }
            msgs.push(
                BroadcastMessage::RequestMessage(
                    Request {
                        floor: cell.floor,
                        request_type: cell.request_type,
                        status: cell.status,
                        acknowledged_by: clone_strings(&cell.acknowledged_by),
                    },
                ),
            );
            f2 = f2 + 1;
        }
        msgs
    }
}

/// A cell only ever becomes active along one of three paths: a pending
/// call whose acknowledgement set, extended by the sender, covers every
/// live peer; a pending call that a peer already promoted; or a cell
/// adopted wholesale, while still unknown, from a remote that was
/// active. No other merge input activates anything.
pub proof fn lemma_active_provenance(
    l_status: RequestStatus,
    l_acks: Seq<Seq<char>>,
    r_status: RequestStatus,
    r_acks: Seq<Seq<char>>,
    sender: Seq<char>,
    peers: Seq<Seq<char>>,
)
    requires
        spec_merge_cell(l_status, l_acks, r_status, r_acks, sender, peers).0
            == RequestStatus::Active,
        l_status != RequestStatus::Active,
    ensures
        ({
            ||| (l_status == RequestStatus::Pending && r_status == RequestStatus::Pending
                && spec_covered(spec_ack_acks(l_acks, sender), peers))
            ||| (l_status == RequestStatus::Pending && r_status == RequestStatus::Active)
            ||| (l_status == RequestStatus::Unknown && r_status == RequestStatus::Active)
        }),
{
}

/// Merging the same remote cell twice leaves the cell exactly as one
/// merge left it, except where the first merge made the cell freshly
/// pending — out of `Unknown` or `Inactive` — and the repeat then
/// counts as the sender's acknowledgement.
pub proof fn lemma_merge_idempotent(
    l_status: RequestStatus,
    l_acks: Seq<Seq<char>>,
    r_status: RequestStatus,
    r_acks: Seq<Seq<char>>,
    sender: Seq<char>,
    peers: Seq<Seq<char>>,
)
    requires
        !(l_status == RequestStatus::Unknown && r_status == RequestStatus::Pending),
        !(l_status == RequestStatus::Inactive && r_status == RequestStatus::Pending),
    ensures
        ({
            let once = spec_merge_cell(l_status, l_acks, r_status, r_acks, sender, peers);
            let twice = spec_merge_cell(once.0, once.1, r_status, r_acks, sender, peers);
            twice.0 == once.0 && twice.1 == once.1
        }),
{
    let once = spec_merge_cell(l_status, l_acks, r_status, r_acks, sender, peers);
    if l_status == RequestStatus::Pending && r_status == RequestStatus::Pending {
        let acks2 = spec_ack_acks(l_acks, sender);
        assert(acks2.contains(sender)) by {
            if !l_acks.contains(sender) {
                assert(acks2[acks2.len() - 1] == sender);
            }
        }
        if !spec_covered(acks2, peers) {
            assert(spec_ack_acks(acks2, sender) == acks2);
        }
    }
}

/// The assignment is exclusive: two distinct nodes that each record
/// the other's true position cannot both own one call. One of them
/// must see the other at no greater cost, and the IP tie-break is
/// antisymmetric.
pub proof fn lemma_assignment_exclusive(
    a: &RequestHandler,
    b: &RequestHandler,
    rfloor: int,
    apos: int,
    bpos: int,
)
    requires
        a.local_ip@ != b.local_ip@,
        a.positions_view().contains((b.local_ip@, bpos)),
        b.positions_view().contains((a.local_ip@, apos)),
    ensures
        !(a.spec_assigned(rfloor, apos) && b.spec_assigned(rfloor, bpos)),
{
    if a.spec_assigned(rfloor, apos) && b.spec_assigned(rfloor, bpos) {
        let i = choose|i: int|
            0 <= i < a.positions_view().len() && a.positions_view()[i] == (b.local_ip@, bpos);
        let j = choose|j: int|
            0 <= j < b.positions_view().len() && b.positions_view()[j] == (a.local_ip@, apos);
        assert(a.positions_view()[i] == (b.local_ip@, bpos));
        assert(b.positions_view()[j] == (a.local_ip@, apos));
        let ca = spec_cost(rfloor, apos);
        let cb = spec_cost(rfloor, bpos);
        if ca == cb {
            assert(lex_le(a.local_ip@, b.local_ip@));
            assert(lex_le(b.local_ip@, a.local_ip@));
            lemma_lex_le_antisymmetric(a.local_ip@, b.local_ip@);
        }
    }
}

/// At most one node stops for a given active hall cell: under
/// identical replicated state — both cabins at the stopping floor,
/// each recording the other there, no internal call of their own at
/// that floor — the deterministic cost and IP tie-break let only one
/// of the two answer yes.
pub proof fn lemma_at_most_one_stops(
    a: &RequestHandler,
    b: &RequestHandler,
    floor: int,
    dir: MotorDir,
)
    requires
        a.local_ip@ != b.local_ip@,
        a.positions_view().contains((b.local_ip@, floor)),
        b.positions_view().contains((a.local_ip@, floor)),
        a.cell(2, floor).status != RequestStatus::Active,
        b.cell(2, floor).status != RequestStatus::Active,
    ensures
        !(a.spec_should_stop(floor, dir) && b.spec_should_stop(floor, dir)),
{
    lemma_assignment_exclusive(a, b, floor, floor, floor);
}

/// A down call at floor 0 turns an upward cabin standing there around:
/// the opposite-direction cell at the terminal floor itself counts.
pub proof fn lemma_turnaround_at_bottom(h: &RequestHandler)
    requires
        h.cell(0, 0).status == RequestStatus::Active,
    ensures
        h.spec_should_change_direction(0, MotorDir::Up),
{
}

} // verus!
