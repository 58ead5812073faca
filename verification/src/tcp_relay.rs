//! The bookkeeping of a TCP relay.
//!
//! The relay itself accepts, dials and copies bytes elsewhere; here are its
//! decisions. Each accepted connection is told to `accept`, which refuses
//! it or gives it a slot. A slot goes from `Dialing` to `Relaying` when the
//! remote side answers, to `Closing` when the first of the two copy
//! directions ends, and is free again when the second has ended too. A
//! connection counts against the rule's limit while it is dialing or
//! relaying.

use crate::addr::{NetPattern, SocketAddress};
use crate::admission::{allowed, has_room, verdict_of, Admission, Verdict};
use crate::forward_config::{net_patterns_of, ForwardSessionConfig};
use vstd::prelude::*;

verus! {

/// One place in the connection table.
#[derive(Clone, Copy, Debug, PartialEq, Eq, Structural)]
pub enum Slot {
    /// No connection is here.
    Free,
    /// The client at this address was admitted; the remote side is being
    /// dialed.
    Dialing(SocketAddress),
    /// Bytes are being copied between this client and the remote side.
    Relaying(SocketAddress),
    /// One copy direction has ended and both sockets are shut down; the
    /// other direction has yet to notice.
    Closing,
}

/// What to do with a connection that was just accepted.
#[derive(Clone, Copy, Debug, PartialEq, Eq, Structural)]
pub enum AcceptAction {
    /// Close it: its address is not on the allow-list.
    RefuseNotAllowed,
    /// Close it: the rule serves as many connections as it may.
    RefuseOverCapacity,
    /// Dial the remote side for it; it is connection `conn` from now on.
    Dial { conn: usize },
}

/// What to do when dialing has ended.
#[derive(Clone, Copy, Debug, PartialEq, Eq, Structural)]
pub enum DialAction {
    /// Copy bytes in both directions, through buffers of this size.
    StartRelay { bufsize: usize },
    /// Dialing failed: close the accepted connection.
    CloseLocal,
    /// The connection is not dialing: nothing to do.
    Ignore,
}

/// What to do when one copy direction has ended.
#[derive(Clone, Copy, Debug, PartialEq, Eq, Structural)]
pub enum CopyAction {
    /// It was the first of the two: shut down both directions.
    ShutdownBoth,
    /// It was the second: both sockets can be dropped.
    Release,
    /// The connection is not being relayed: nothing to do.
    Ignore,
}

/// The connection table of one rule.
#[derive(Clone, Debug, PartialEq, Eq)]
pub struct TcpRelay {
    pub admission: Admission,
    pub bufsize: usize,
    pub slots: Vec<Slot>,
}

/// The mathematical content of a `TcpRelay`.
pub struct TcpModel {
    pub nets: Seq<NetPattern>,
    pub limit: int,
    pub bufsize: int,
    pub slots: Seq<Slot>,
}

/// Whether the connection in a slot counts against the limit.
pub open spec fn is_active(slot: Slot) -> bool {
    slot is Dialing || slot is Relaying
}

/// How many of the slots hold a connection that counts against the limit.
pub open spec fn active_count(slots: Seq<Slot>) -> nat
    decreases slots.len(),
{
    if slots.len() == 0 {
        0
    } else {
        active_count(slots.drop_last()) + if is_active(slots.last()) {
            1nat
        } else {
            0nat
        }
    }
}

/// The position of the first free slot, or the number of slots if none is free.
pub open spec fn first_free(slots: Seq<Slot>) -> int
    decreases slots.len(),
{
    if slots.len() == 0 {
        0
    } else if slots[0] is Free {
        0
    } else {
        1 + first_free(slots.drop_first())
    }
}

/// The table after `slot` was written at position `conn`, which is a
/// position of the table or the one just behind it.
pub open spec fn with_slot(slots: Seq<Slot>, conn: int, slot: Slot) -> Seq<Slot> {
    if 0 <= conn < slots.len() {
        slots.update(conn, slot)
    } else {
        slots.push(slot)
    }
}

impl TcpModel {
    /// How many connections count against the limit.
    pub open spec fn active(self) -> nat {
        active_count(self.slots)
    }

    /// What holds of every table that the relay can reach: a limit that is
    /// set is kept.
    pub open spec fn wf(self) -> bool {
        self.limit > 0 ==> self.active() <= self.limit
    }

    /// The table of a rule before any connection.
    pub open spec fn start(nets: Seq<NetPattern>, limit: int, bufsize: int) -> TcpModel {
        TcpModel { nets, limit, bufsize, slots: Seq::empty() }
    }

    /// A connection from `peer` was accepted. It is refused if the
    /// allow-list or the limit says so; else it takes the first free slot.
    pub open spec fn accept(self, peer: SocketAddress) -> (TcpModel, AcceptAction) {
        match verdict_of(self.nets, self.limit, self.active() as int, peer.ip) {
            Verdict::NotAllowed => (self, AcceptAction::RefuseNotAllowed),
            Verdict::OverCapacity => (self, AcceptAction::RefuseOverCapacity),
            Verdict::Admit => {
                let conn = first_free(self.slots);
                (
                    TcpModel { slots: with_slot(self.slots, conn, Slot::Dialing(peer)), ..self },
                    AcceptAction::Dial { conn: conn as usize },
                )
            },
        }
    }

    /// Dialing for connection `conn` has ended, with or without success.
    pub open spec fn dial_finished(self, conn: int, connected: bool) -> (TcpModel, DialAction) {
        if 0 <= conn < self.slots.len() && self.slots[conn] is Dialing {
            if connected {
                (
                    TcpModel {
                        slots: self.slots.update(
                            conn,
                            Slot::Relaying(self.slots[conn]->Dialing_0),
                        ),
                        ..self
                    },
                    DialAction::StartRelay { bufsize: self.bufsize as usize },
                )
            } else {
                (
                    TcpModel { slots: self.slots.update(conn, Slot::Free), ..self },
                    DialAction::CloseLocal,
                )
            }
        } else {
            (self, DialAction::Ignore)
        }
    }

    /// One copy direction of connection `conn` has ended.
    pub open spec fn copy_ended(self, conn: int) -> (TcpModel, CopyAction) {
        if 0 <= conn < self.slots.len() && self.slots[conn] is Relaying {
            (
                TcpModel { slots: self.slots.update(conn, Slot::Closing), ..self },
                CopyAction::ShutdownBoth,
            )
        } else if 0 <= conn < self.slots.len() && self.slots[conn] is Closing {
            (TcpModel { slots: self.slots.update(conn, Slot::Free), ..self }, CopyAction::Release)
        } else {
            (self, CopyAction::Ignore)
        }
    }
}

/// What can happen to a relay.
pub enum TcpEvent {
    /// A connection from this client was accepted.
    Accepted(SocketAddress),
    /// Dialing for a connection has ended.
    DialFinished { conn: int, connected: bool },
    /// One copy direction of a connection has ended.
    CopyEnded { conn: int },
}

impl TcpModel {
    /// The table after one event.
    pub open spec fn step(self, event: TcpEvent) -> TcpModel {
        match event {
            TcpEvent::Accepted(peer) => self.accept(peer).0,
            TcpEvent::DialFinished { conn, connected } => self.dial_finished(conn, connected).0,
            TcpEvent::CopyEnded { conn } => self.copy_ended(conn).0,
        }
    }

    /// The table after a run of events.
    pub open spec fn after(self, events: Seq<TcpEvent>) -> TcpModel
        decreases events.len(),
    {
        if events.len() == 0 {
            self
        } else {
            self.after(events.drop_last()).step(events.last())
        }
    }
}

impl View for TcpRelay {
    type V = TcpModel;

    open spec fn view(&self) -> TcpModel {
        TcpModel {
            nets: self.admission.nets@,
            limit: self.admission.limit as int,
            bufsize: self.bufsize as int,
            slots: self.slots@,
        }
    }
}

/// The first free slot is a free slot, and no slot before it is free.
pub proof fn lemma_first_free(slots: Seq<Slot>)
    ensures
        0 <= first_free(slots) <= slots.len(),
        first_free(slots) < slots.len() ==> slots[first_free(slots)] is Free,
        forall|i: int| 0 <= i < first_free(slots) ==> !(#[trigger] slots[i] is Free),
    decreases slots.len(),
{
    if slots.len() > 0 && !(slots[0] is Free) {
        let rest = slots.drop_first();
        lemma_first_free(rest);
        assert forall|i: int| 0 <= i < first_free(slots) implies !(#[trigger] slots[i] is Free) by {
            if i > 0 {
                assert(slots[i] == rest[i - 1]);
            }
        }
    }
}

/// Writing one slot changes the count by what that slot gains or loses.
pub proof fn lemma_active_count_update(slots: Seq<Slot>, conn: int, slot: Slot)
    requires
        0 <= conn < slots.len(),
    ensures
        active_count(slots.update(conn, slot)) + (if is_active(slots[conn]) {
            1int
        } else {
            0int
        }) == active_count(slots) + (if is_active(slot) {
            1int
        } else {
            0int
        }),
    decreases slots.len(),
{
    let after = slots.update(conn, slot);
    if conn == slots.len() - 1 {
        assert(after.drop_last() =~= slots.drop_last());
    } else {
        assert(after.drop_last() =~= slots.drop_last().update(conn, slot));
        lemma_active_count_update(slots.drop_last(), conn, slot);
    }
}

/// A new slot at the end adds what it holds to the count.
pub proof fn lemma_active_count_push(slots: Seq<Slot>, slot: Slot)
    ensures
        active_count(slots.push(slot)) == active_count(slots) + (if is_active(slot) {
            1nat
        } else {
            0nat
        }),
{
    assert(slots.push(slot).drop_last() =~= slots);
}

impl TcpRelay {
    /// The relay of a validated rule, with no connection yet.
    pub fn new(rule: &ForwardSessionConfig) -> (r: TcpRelay)
        requires
            rule.wf(),
        ensures
            r@ == TcpModel::start(
                net_patterns_of(rule@.allow_nets),
                rule@.max_connections,
                rule@.conn_bufsize,
            ),
    {
        TcpRelay {
            admission: Admission::of_rule(rule),
            bufsize: rule.conn_bufsize,
            slots: Vec::new(),
        }
    }

    /// How many connections count against the limit.
    pub fn active(&self) -> (n: usize)
        ensures
            n == self@.active(),
    {
        let len: usize = self.slots.len();
        let mut n: usize = 0;
        let mut i: usize = 0;
        while i < len
            invariant
                len == self.slots.len(),
                0 <= i <= len,
                n == active_count(self.slots@.take(i as int)),
                n <= i,
            decreases len - i,
        {
            proof {
                assert(self.slots@.take(i + 1).drop_last() =~= self.slots@.take(i as int));
            }
            match self.slots[i] {
                Slot::Dialing(_) => {
                    n = n + 1;
                },
                Slot::Relaying(_) => {
                    n = n + 1;
                },
                _ => {},
            }
            i = i + 1;
        }
        assert(self.slots@.take(len as int) =~= self.slots@);
        n
    }

    /// The client of connection `conn`, while it is dialing or relaying.
    pub fn peer(&self, conn: usize) -> (r: Option<SocketAddress>)
        ensures
            r == if conn < self@.slots.len() {
                match self@.slots[conn as int] {
                    Slot::Dialing(peer) => Some(peer),
                    Slot::Relaying(peer) => Some(peer),
                    _ => None,
                }
            } else {
                None
            },
    {
        if conn < self.slots.len() {
            match self.slots[conn] {
                Slot::Dialing(peer) => Some(peer),
                Slot::Relaying(peer) => Some(peer),
                _ => None,
            }
        } else {
            None
        }
    }

    /// Decides on a connection that was just accepted from `peer`.
    pub fn accept(&mut self, peer: SocketAddress) -> (a: AcceptAction)
        ensures
            (final(self)@, a) == old(self)@.accept(peer),
    {
        let active = self.active();
        match self.admission.decide(peer.ip, active) {
            Verdict::NotAllowed => AcceptAction::RefuseNotAllowed,
            Verdict::OverCapacity => AcceptAction::RefuseOverCapacity,
            Verdict::Admit => {
                let len: usize = self.slots.len();
                let mut conn: usize = 0;
                while conn < len && !matches!(self.slots[conn], Slot::Free)
                    invariant
                        len == self.slots.len(),
                        0 <= conn <= len,
                        forall|i: int| 0 <= i < conn ==> !(#[trigger] self.slots@[i] is Free),
                    decreases len - conn,
                {
                    conn = conn + 1;
                }
                proof {
                    lemma_first_free(self.slots@);
                }
                if conn < len {
                    self.slots[conn] = Slot::Dialing(peer);
                } else {
                    self.slots.push(Slot::Dialing(peer));
                }
                AcceptAction::Dial { conn }
            },
        }
    }

    /// Records how dialing for connection `conn` has ended.
    pub fn dial_finished(&mut self, conn: usize, connected: bool) -> (a: DialAction)
        ensures
            (final(self)@, a) == old(self)@.dial_finished(conn as int, connected),
    {
        if conn < self.slots.len() {
            match self.slots[conn] {
                Slot::Dialing(peer) => {
                    if connected {
                        self.slots[conn] = Slot::Relaying(peer);
                        DialAction::StartRelay { bufsize: self.bufsize }
                    } else {
                        self.slots[conn] = Slot::Free;
                        DialAction::CloseLocal
                    }
                },
                _ => DialAction::Ignore,
            }
        } else {
            DialAction::Ignore
        }
    }

    /// Records that one copy direction of connection `conn` has ended.
    pub fn copy_ended(&mut self, conn: usize) -> (a: CopyAction)
        ensures
            (final(self)@, a) == old(self)@.copy_ended(conn as int),
    {
        if conn < self.slots.len() {
            match self.slots[conn] {
                Slot::Relaying(_) => {
                    self.slots[conn] = Slot::Closing;
                    CopyAction::ShutdownBoth
                },
                Slot::Closing => {
                    self.slots[conn] = Slot::Free;
                    CopyAction::Release
                },
                _ => CopyAction::Ignore,
            }
        } else {
            CopyAction::Ignore
        }
    }
}

/// A relay without connections keeps any limit.
pub proof fn law_start_keeps_limit(nets: Seq<NetPattern>, limit: int, bufsize: int)
    ensures
        TcpModel::start(nets, limit, bufsize).wf(),
        TcpModel::start(nets, limit, bufsize).active() == 0,
{
}

/// An admitted connection takes a slot that was free or new, is dialing
/// there, and raises the count by one; no other slot changes.
pub proof fn law_admitted_takes_a_slot(m: TcpModel, peer: SocketAddress)
    requires
        m.accept(peer).1 is Dial,
    ensures
        ({
            let (after, action) = m.accept(peer);
            let conn = first_free(m.slots);
            &&& action == AcceptAction::Dial { conn: conn as usize }
            &&& 0 <= conn <= m.slots.len()
            &&& conn < m.slots.len() ==> m.slots[conn] is Free
            &&& conn < after.slots.len()
            &&& after.slots[conn] == Slot::Dialing(peer)
            &&& after.active() == m.active() + 1
            &&& forall|i: int| 0 <= i < m.slots.len() && i != conn ==> after.slots[i] == m.slots[i]
        }),
{
    lemma_first_free(m.slots);
    let conn = first_free(m.slots);
    if conn < m.slots.len() {
        lemma_active_count_update(m.slots, conn, Slot::Dialing(peer));
    } else {
        lemma_active_count_push(m.slots, Slot::Dialing(peer));
    }
}

/// No step takes the relay over its limit.
pub proof fn law_accept_keeps_limit(m: TcpModel, peer: SocketAddress)
    requires
        m.wf(),
    ensures
        m.accept(peer).0.wf(),
{
    if m.accept(peer).1 is Dial {
        law_admitted_takes_a_slot(m, peer);
    }
}

/// No step takes the relay over its limit.
pub proof fn law_dial_finished_keeps_limit(m: TcpModel, conn: int, connected: bool)
    requires
        m.wf(),
    ensures
        m.dial_finished(conn, connected).0.wf(),
        connected ==> m.dial_finished(conn, connected).0.active() == m.active(),
{
    if 0 <= conn < m.slots.len() && m.slots[conn] is Dialing {
        lemma_active_count_update(m.slots, conn, Slot::Relaying(m.slots[conn]->Dialing_0));
        lemma_active_count_update(m.slots, conn, Slot::Free);
    }
}

/// No step takes the relay over its limit.
pub proof fn law_copy_ended_keeps_limit(m: TcpModel, conn: int)
    requires
        m.wf(),
    ensures
        m.copy_ended(conn).0.wf(),
{
    if 0 <= conn < m.slots.len() {
        lemma_active_count_update(m.slots, conn, Slot::Closing);
        lemma_active_count_update(m.slots, conn, Slot::Free);
    }
}

/// While there is room, a client whose address the allow-list lets in is
/// admitted, and so is every client if the list is empty. A client whose
/// address a non-empty list does not hold is refused, room or not, and
/// leaves the table as it was.
pub proof fn law_allow_list(m: TcpModel, peer: SocketAddress)
    ensures
        allowed(m.nets, peer.ip) && has_room(m.limit, m.active() as int) ==> m.accept(
            peer,
        ).1 is Dial,
        m.nets.len() == 0 ==> allowed(m.nets, peer.ip),
        !allowed(m.nets, peer.ip) ==> m.nets.len() > 0 && m.accept(peer) == (
            m,
            AcceptAction::RefuseNotAllowed,
        ),
        m.accept(peer).1 is Dial ==> allowed(m.nets, peer.ip),
{
}

/// With a limit of `N > 0` and `N` connections open, an accepted connection
/// is refused and the table stays as it was.
pub proof fn law_full_relay_refuses(m: TcpModel, peer: SocketAddress)
    requires
        m.limit > 0,
        m.active() == m.limit,
    ensures
        !(m.accept(peer).1 is Dial),
        allowed(m.nets, peer.ip) ==> m.accept(peer).1 == AcceptAction::RefuseOverCapacity,
        m.accept(peer).0 == m,
{
}

/// Once an open connection of a relay within its limit has closed, a client
/// that the allow-list lets in is admitted.
pub proof fn law_closing_makes_room(m: TcpModel, conn: int, peer: SocketAddress)
    requires
        m.wf(),
        0 <= conn < m.slots.len(),
        m.slots[conn] is Relaying,
        allowed(m.nets, peer.ip),
    ensures
        m.copy_ended(conn).0.accept(peer).1 is Dial,
{
    lemma_active_count_update(m.slots, conn, Slot::Closing);
}

/// A dial that fails closes the accepted connection and gives its place in
/// the count back.
pub proof fn law_failed_dial_frees(m: TcpModel, conn: int)
    requires
        0 <= conn < m.slots.len(),
        m.slots[conn] is Dialing,
    ensures
        m.dial_finished(conn, false).1 == DialAction::CloseLocal,
        m.dial_finished(conn, false).0.active() + 1 == m.active(),
        m.dial_finished(conn, false).0.slots[conn] is Free,
{
    lemma_active_count_update(m.slots, conn, Slot::Free);
}

/// Whichever copy direction of an open connection ends first shuts down
/// both and gives the connection's place in the count back. The end of the
/// other direction releases the slot and changes the count no more, and any
/// further report of an end is ignored.
pub proof fn law_close_counts_once(m: TcpModel, conn: int)
    requires
        0 <= conn < m.slots.len(),
        m.slots[conn] is Relaying,
    ensures
        ({
            let (first, a1) = m.copy_ended(conn);
            let (second, a2) = first.copy_ended(conn);
            let (third, a3) = second.copy_ended(conn);
            &&& a1 == CopyAction::ShutdownBoth
            &&& first.active() + 1 == m.active()
            &&& a2 == CopyAction::Release
            &&& second.active() == first.active()
            &&& second.slots[conn] is Free
            &&& a3 == CopyAction::Ignore
            &&& third == second
        }),
{
    let (first, a1) = m.copy_ended(conn);
    lemma_active_count_update(m.slots, conn, Slot::Closing);
    lemma_active_count_update(first.slots, conn, Slot::Free);
}

/// Whatever happens, in whatever order, a relay never serves more
/// connections at a time than its limit allows.
pub proof fn law_limit_is_never_exceeded(
    nets: Seq<NetPattern>,
    limit: int,
    bufsize: int,
    events: Seq<TcpEvent>,
)
    ensures
        TcpModel::start(nets, limit, bufsize).after(events).wf(),
    decreases events.len(),
{
    let start = TcpModel::start(nets, limit, bufsize);
    if events.len() == 0 {
        law_start_keeps_limit(nets, limit, bufsize);
    } else {
        law_limit_is_never_exceeded(nets, limit, bufsize, events.drop_last());
        let before = start.after(events.drop_last());
        match events.last() {
            TcpEvent::Accepted(peer) => law_accept_keeps_limit(before, peer),
            TcpEvent::DialFinished { conn, connected } => law_dial_finished_keeps_limit(
                before,
                conn,
                connected,
            ),
            TcpEvent::CopyEnded { conn } => law_copy_ended_keeps_limit(before, conn),
        }
    }
}

} // verus!
