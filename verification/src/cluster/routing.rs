//! The request-routing state machine.
//!
//! Every mutating request carries a `forwarded` mark, present exactly on a
//! second hop. A node inspects its election role, the home node of the
//! target resource and that mark, and either executes locally, forwards
//! once, or fails. The decision table is total; the soundness proof below
//! shows that in a well-formed cluster every request reaches the home node,
//! executes there exactly once, and travels at most two hops.

use vstd::prelude::*;

verus! {

/// A node's current role in the election protocol.
#[derive(Clone, Copy, PartialEq, Eq, Structural, Debug)]
pub enum Role {
    Leader,
    Follower { leader: u128 },
    Candidate,
}

/// What the state machine tells the node to do with a request.
#[derive(Clone, Copy, PartialEq, Eq, Structural, Debug)]
pub enum RouteAction {
    /// Run the side effect and commit here.
    ExecuteLocal,
    /// Send the request to `target`, marking it forwarded when asked to,
    /// and relay the reply.
    Forward { target: u128, mark_forwarded: bool },
    /// Fail with no leader elected.
    FailNoLeader,
}

/// The routing decision table.
///
/// | Role            | Home  | forwarded | Action                        |
/// |-----------------|-------|-----------|-------------------------------|
/// | Leader          | self  | any       | execute locally               |
/// | Leader          | peer  | absent    | mark, send to home            |
/// | Leader          | peer  | present   | execute locally               |
/// | Follower        | any   | absent    | send to leader, without mark  |
/// | Follower        | any   | present   | execute locally               |
/// | Candidate       | any   | any       | fail                          |
pub open spec fn spec_route(self_id: u128, role: Role, home: u128, forwarded: bool)
    -> RouteAction {
    match role {
        Role::Leader => if home == self_id {
            RouteAction::ExecuteLocal
        } else if !forwarded {
            RouteAction::Forward { target: home, mark_forwarded: true }
        } else {
            RouteAction::ExecuteLocal
        },
        Role::Follower { leader } => if !forwarded {
            RouteAction::Forward { target: leader, mark_forwarded: false }
        } else {
            RouteAction::ExecuteLocal
        },
        Role::Candidate => RouteAction::FailNoLeader,
    }
}

/// Decides what to do with a mutating request.
pub fn route(self_id: u128, role: &Role, home: u128, forwarded: bool) -> (r: RouteAction)
    ensures
        r == spec_route(self_id, *role, home, forwarded),
{
    match role {
        Role::Leader => {
            if home == self_id {
                RouteAction::ExecuteLocal
            } else if !forwarded {
                RouteAction::Forward { target: home, mark_forwarded: true }
            } else {
                RouteAction::ExecuteLocal
            }
        }
        Role::Follower { leader } => {
            if !forwarded {
                RouteAction::Forward { target: *leader, mark_forwarded: false }
            } else {
                RouteAction::ExecuteLocal
            }
        }
        Role::Candidate => RouteAction::FailNoLeader,
    }
}

/// A cluster whose election has settled: one node is the leader and every
/// other node is a follower that knows that leader.
pub open spec fn settled(nodes: Seq<u128>, role_of: spec_fn(u128) -> Role, leader: u128)
    -> bool {
    &&& nodes.contains(leader)
    &&& role_of(leader) == Role::Leader
    &&& forall|n: u128| nodes.contains(n) && n != leader
        ==> role_of(n) == (Role::Follower { leader })
}

/// Where a request that starts unmarked at `start` ends up: the node that
/// executes it and the number of forwards it took, or `None` when some node
/// on its path failed it.
pub open spec fn spec_run(role_of: spec_fn(u128) -> Role, home: u128, node: u128,
    forwarded: bool, fuel: nat) -> Option<(u128, nat)>
    decreases fuel,
{
    match spec_route(node, role_of(node), home, forwarded) {
        RouteAction::ExecuteLocal => Some((node, 0)),
        RouteAction::Forward { target, mark_forwarded } => if fuel == 0 {
            None
        } else {
            match spec_run(role_of, home, target, forwarded || mark_forwarded,
                (fuel - 1) as nat) {
                Some((exec_node, hops)) => Some((exec_node, hops + 1)),
                None => None,
            }
        },
        RouteAction::FailNoLeader => None,
    }
}

/// Routing soundness: in a settled cluster, a mutating request for a
/// resource whose home node is a member, issued unmarked at any member,
/// is executed exactly once, on the home node, after at most two forwards.
/// The single execution point is where the one catalog commit of the
/// request happens, so the catalog is written exactly once.
pub proof fn lemma_routing_soundness(nodes: Seq<u128>, role_of: spec_fn(u128) -> Role,
    leader: u128, home: u128, start: u128)
    requires
        settled(nodes, role_of, leader),
        nodes.contains(home),
        nodes.contains(start),
    ensures
        spec_run(role_of, home, start, false, 2) matches Some(r)
            && r.0 == home && r.1 <= 2,
{
    if start == leader {
        if home == leader {
            assert(spec_run(role_of, home, start, false, 2) == Some((home, 0nat)));
        } else {
            assert(role_of(home) == (Role::Follower { leader }));
            assert(spec_route(home, role_of(home), home, true)
                == RouteAction::ExecuteLocal);
            assert(spec_run(role_of, home, home, true, 1) == Some((home, 0nat)));
        }
    } else {
        assert(role_of(start) == (Role::Follower { leader }));
        assert(spec_route(start, role_of(start), home, false)
            == (RouteAction::Forward { target: leader, mark_forwarded: false }));
        if home == leader {
            assert(spec_run(role_of, home, leader, false, 1) == Some((home, 0nat)));
        } else {
            assert(spec_route(leader, Role::Leader, home, false)
                == (RouteAction::Forward { target: home, mark_forwarded: true }));
            assert(role_of(home) == (Role::Follower { leader }));
            assert(spec_run(role_of, home, home, true, 0) == Some((home, 0nat)));
            assert(spec_run(role_of, home, leader, false, 1) == Some((home, 1nat)));
        }
    }
}

/// A marked request is never forwarded again: whatever the role and the
/// home, the decision on a forwarded request is to execute or to fail,
/// never another hop. This is what makes a third hop impossible.
pub proof fn lemma_no_third_hop(self_id: u128, role: Role, home: u128)
    ensures
        role != Role::Candidate ==> spec_route(self_id, role, home, true)
            == RouteAction::ExecuteLocal,
        role == Role::Candidate ==> spec_route(self_id, role, home, true)
            == RouteAction::FailNoLeader,
{
}

} // verus!
