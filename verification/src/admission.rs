//! Admission control: who may connect, and how many at a time.

use crate::addr::{IpAddress, NetPattern};
use crate::forward_config::{net_patterns_of, ForwardSessionConfig};
use vstd::prelude::*;

verus! {

/// The outcome of the admission checks for one client.
#[derive(Clone, Copy, Debug, PartialEq, Eq, Structural)]
pub enum Verdict {
    /// The client may go on.
    Admit,
    /// The allow-list is not empty and the client's address is in none of
    /// its networks.
    NotAllowed,
    /// The rule already serves as many clients as it may.
    OverCapacity,
}

/// Whether the allow-list lets `ip` in: an empty list lets everyone in, any
/// other list those whose address lies in one of its networks.
pub open spec fn allowed(nets: Seq<NetPattern>, ip: IpAddress) -> bool {
    nets.len() == 0 || exists|i: int| 0 <= i < nets.len() && (#[trigger] nets[i]).contains(ip)
}

/// Whether one more client fits beside `active` others. A limit of zero or
/// less is no limit.
pub open spec fn has_room(limit: int, active: int) -> bool {
    limit <= 0 || active < limit
}

/// The admission checks in their order: the allow-list first, then the
/// capacity.
pub open spec fn verdict_of(
    nets: Seq<NetPattern>,
    limit: int,
    active: int,
    ip: IpAddress,
) -> Verdict {
    if !allowed(nets, ip) {
        Verdict::NotAllowed
    } else if !has_room(limit, active) {
        Verdict::OverCapacity
    } else {
        Verdict::Admit
    }
}

/// The admission limits of one rule.
#[derive(Clone, Debug, PartialEq, Eq)]
pub struct Admission {
    /// Networks that clients may come from; empty for all.
    pub nets: Vec<NetPattern>,
    /// Most clients at a time; zero or less for no limit.
    pub limit: i64,
}

impl Admission {
    /// The limits that a validated rule sets.
    pub fn of_rule(rule: &ForwardSessionConfig) -> (r: Admission)
        requires
            rule.wf(),
        ensures
            r.nets@ == net_patterns_of(rule@.allow_nets),
            r.limit == rule.max_connections,
    {
        Admission { nets: rule.networks().unwrap(), limit: rule.max_connections }
    }

    /// Tests the allow-list.
    pub fn allows(&self, ip: IpAddress) -> (b: bool)
        ensures
            b == allowed(self.nets@, ip),
    {
        let n: usize = self.nets.len();
        if n == 0 {
            return true;
        }
        let mut i: usize = 0;
        while i < n
            invariant
                n == self.nets.len(),
                0 <= i <= n,
                forall|j: int| 0 <= j < i ==> !(#[trigger] self.nets@[j]).contains(ip),
            decreases n - i,
        {
            if self.nets[i].matches(ip) {
                return true;
            }
            i = i + 1;
        }
        false
    }

    /// Tests the capacity.
    pub fn fits(&self, active: usize) -> (b: bool)
        ensures
            b == has_room(self.limit as int, active as int),
    {
        self.limit <= 0 || (active as u64) < (self.limit as u64)
    }

    /// Runs the admission checks for a client at `ip` while `active` others
    /// are being served.
    pub fn decide(&self, ip: IpAddress, active: usize) -> (v: Verdict)
        ensures
            v == verdict_of(self.nets@, self.limit as int, active as int, ip),
    {
        if !self.allows(ip) {
            Verdict::NotAllowed
        } else if !self.fits(active) {
            Verdict::OverCapacity
        } else {
            Verdict::Admit
        }
    }
}

} // verus!
