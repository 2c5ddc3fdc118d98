//! The request cell: the lifecycle primitive of the replicated table.
//!
//! A cell is identified by its `(floor, kind)` pair and carries a
//! four-phase status together with the set of peer IPs that have observed
//! the current call. The acknowledgement set is the only mechanism that
//! turns a hall call from `Pending` into `Active`: promotion happens
//! exactly when the set covers every live peer's IP.

use vstd::prelude::*;
use crate::peer::{clone_strings, contains_ip, ip_of, ip_prefix, views_of};

verus! {

/// The three kinds of call. `Internal` calls are cabin buttons, serviced
/// only by the cabin they were pressed in and never replicated; `CallUp`
/// and `CallDown` are hall calls, replicated across all nodes.
#[derive(Copy, Clone, PartialEq, Eq, Structural, Debug)]
pub enum RequestType {
    Internal,
    CallUp,
    CallDown,
}

/// The four-phase lifecycle of a cell: `Unknown` until first written,
/// `Inactive` with no outstanding call, `Pending` while acknowledgements
/// are being gathered, `Active` once every live peer has acknowledged.
#[derive(Copy, Clone, PartialEq, Eq, Structural, Debug)]
pub enum RequestStatus {
    Active,
    Pending,
    Inactive,
    Unknown,
}

/// One cell of the replicated request table.
#[derive(Clone, Debug)]
pub struct Request {
    pub floor: usize,
    pub request_type: RequestType,
    pub status: RequestStatus,
    /// IPs of the peers that have observed the current `Pending` call.
    pub acknowledged_by: Vec<String>,
}

/// Whether `acks` covers the peer set: every peer id's IP part is in it.
pub open spec fn spec_covered(acks: Seq<Seq<char>>, peers: Seq<Seq<char>>) -> bool {
    forall|i: int| 0 <= i < peers.len() ==> acks.contains(ip_prefix(#[trigger] peers[i]))
}

/// The acknowledgement set after recording `ip`: unchanged when already
/// present, else extended by it.
pub open spec fn spec_ack_acks(acks: Seq<Seq<char>>, ip: Seq<char>) -> Seq<Seq<char>> {
    if acks.contains(ip) {
        acks
    } else {
        acks.push(ip)
    }
}

impl Request {
    /// The IPs of the acknowledgement set, as character sequences.
    pub open spec fn acks(&self) -> Seq<Seq<char>> {
        views_of(self.acknowledged_by@)
    }

    /// The acknowledgement set holds no IP twice.
    pub open spec fn acks_no_dup(&self) -> bool {
        forall|i: int, j: int| 0 <= i < j < self.acks().len() ==> self.acks()[i] != self.acks()[j]
    }

    /// Mark the call acknowledged by every live peer and eligible for
    /// service.
    pub fn move_to_active(&mut self) -> (s: RequestStatus)
        ensures
            final(self).status == RequestStatus::Active,
            final(self).floor == old(self).floor,
            final(self).request_type == old(self).request_type,
            final(self).acknowledged_by == old(self).acknowledged_by,
            s == RequestStatus::Active,
    {
        self.status = RequestStatus::Active;
        RequestStatus::Active
    }

    /// Mark a freshly placed call, not yet acknowledged by every peer.
    pub fn move_to_pending(&mut self) -> (s: RequestStatus)
        ensures
            final(self).status == RequestStatus::Pending,
            final(self).floor == old(self).floor,
            final(self).request_type == old(self).request_type,
            final(self).acknowledged_by == old(self).acknowledged_by,
            s == RequestStatus::Pending,
    {
        self.status = RequestStatus::Pending;
        RequestStatus::Pending
    }

    /// Mark the call served: no outstanding request in this cell.
    pub fn move_to_inactive(&mut self) -> (s: RequestStatus)
        ensures
            final(self).status == RequestStatus::Inactive,
            final(self).floor == old(self).floor,
            final(self).request_type == old(self).request_type,
            final(self).acknowledged_by == old(self).acknowledged_by,
            s == RequestStatus::Inactive,
    {
        self.status = RequestStatus::Inactive;
        RequestStatus::Inactive
    }

    /// Adopt a remote cell wholesale: a node whose cell is still
    /// `Unknown` bootstraps it from ambient gossip.
    pub fn handle_unknown_local(&mut self, remote: &Request) -> (s: RequestStatus)
        ensures
            final(self).floor == remote.floor,
            final(self).request_type == remote.request_type,
            final(self).status == remote.status,
            final(self).acknowledged_by@ == remote.acknowledged_by@,
            s == remote.status,
    {
        self.floor = remote.floor;
        self.request_type = remote.request_type;
        self.status = remote.status;
        self.acknowledged_by = clone_strings(&remote.acknowledged_by);
        self.status
    }

    /// Record `remote_ip` in the acknowledgement set; where the set now
    /// covers every IP in `peers` (matched on the IP part of each
    /// `"ip:id"` entry), promote the call to `Active` and say so, else
    /// leave the status alone and report `Pending`.
    pub fn update_acknowledgements(&mut self, peers: &Vec<String>, remote_ip: String) -> (s:
        RequestStatus)
        ensures
            final(self).floor == old(self).floor,
            final(self).request_type == old(self).request_type,
            final(self).acks() == spec_ack_acks(old(self).acks(), remote_ip@),
            old(self).acks_no_dup() ==> final(self).acks_no_dup(),
            spec_covered(final(self).acks(), views_of(peers@)) ==> {
                &&& final(self).status == RequestStatus::Active
                &&& s == RequestStatus::Active
            },
            !spec_covered(final(self).acks(), views_of(peers@)) ==> {
                &&& final(self).status == old(self).status
                &&& s == RequestStatus::Pending
            },
    {
        let ghost ip_view = remote_ip@;
        if !contains_ip(&self.acknowledged_by, &remote_ip) {
            self.acknowledged_by.push(remote_ip.clone());
            proof {
                assert(self.acks() =~= old(self).acks().push(ip_view));
            }
        }
        proof {
            assert(self.acks() == spec_ack_acks(old(self).acks(), ip_view));
        }
        let ghost acks2 = self.acks();
        let n = peers.len();
        let mut i: usize = 0;
        while i < n
            invariant
                i <= n,
                n == peers@.len(),
                self.floor == old(self).floor,
                self.request_type == old(self).request_type,
                self.status == old(self).status,
                self.acks() == acks2,
                ip_view == remote_ip@,
                acks2 == spec_ack_acks(old(self).acks(), ip_view),
                old(self).acks_no_dup() ==> self.acks_no_dup(),
                forall|j: int| 0 <= j < i ==> acks2.contains(ip_prefix(#[trigger] views_of(peers@)[j])),
            decreases n - i,
        {
            let ip = ip_of(peers[i].as_str());
            proof {
                assert(views_of(peers@)[i as int] == peers@[i as int]@);
            }
            if !contains_ip(&self.acknowledged_by, &ip) {
                proof {
                    assert(!acks2.contains(ip_prefix(views_of(peers@)[i as int])));
                    assert(!spec_covered(acks2, views_of(peers@)));
                }
                return RequestStatus::Pending;
            }
            i = i + 1;
        }
        proof {
            assert(spec_covered(acks2, views_of(peers@)));
        }
        self.status = RequestStatus::Active;
        RequestStatus::Active
    }
}

impl Default for RequestType {
    /// The default kind, as on the wire.
    fn default() -> (t: RequestType)
        ensures
            t == RequestType::CallUp,
    {
        RequestType::CallUp
    }
}

impl Default for RequestStatus {
    /// A cell starts its life unwritten.
    fn default() -> (s: RequestStatus)
        ensures
            s == RequestStatus::Unknown,
    {
        RequestStatus::Unknown
    }
}

impl Default for Request {
    /// An unwritten cell with an empty acknowledgement set.
    fn default() -> (r: Request)
        ensures
            r.floor == 0,
            r.request_type == RequestType::CallUp,
            r.status == RequestStatus::Unknown,
            r.acknowledged_by@.len() == 0,
    {
        Request {
            floor: 0,
            request_type: RequestType::CallUp,
            status: RequestStatus::Unknown,
            acknowledged_by: Vec::new(),
        }
    }
}

} // verus!
