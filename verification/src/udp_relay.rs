//! The session table of a UDP relay.
//!
//! UDP has no connections, so the relay keeps one session per client
//! address: the socket towards the remote side that this client's datagrams
//! go out on and that the replies come back on. The sockets live elsewhere;
//! here is the table that says which clients have a session and when each
//! was last heard of. Every datagram from a client and every reply to it
//! renews its session, and a sweep removes the sessions that have been idle
//! for longer than the timeout.
//!
//! Times are counted in ticks of a clock that the caller reads; the table
//! only compares them.

use crate::addr::{NetPattern, SocketAddress};
use crate::admission::{allowed, has_room, Admission};
use crate::forward_config::{net_patterns_of, ForwardSessionConfig};
use vstd::prelude::*;

verus! {

/// The idle timeout of a relay that is given none, for a clock that counts
/// milliseconds: one minute.
pub const DEFAULT_IDLE_TIMEOUT: u64 = 60000;

/// One client's session.
#[derive(Clone, Copy, Debug, PartialEq, Eq, Structural)]
pub struct Session {
    /// Where the client's datagrams come from, and its replies go to.
    pub client: SocketAddress,
    /// When a datagram of this session was last relayed, either way.
    pub last_activity: u64,
}

/// What to do with a datagram that arrived on the local socket.
#[derive(Clone, Copy, Debug, PartialEq, Eq, Structural)]
pub enum DatagramAction {
    /// Drop it: the sender's address is not on the allow-list.
    DropNotAllowed,
    /// Drop it: the sender has no session and the rule serves as many as it
    /// may.
    DropOverCapacity,
    /// Send it to the remote side over the sender's session.
    Forward,
    /// Open a session for the sender, then send it over that session.
    OpenAndForward,
}

/// The session table of one rule.
#[derive(Clone, Debug, PartialEq, Eq)]
pub struct UdpRelay {
    pub admission: Admission,
    /// How long a session may stay idle before a sweep removes it.
    pub idle_timeout: u64,
    pub sessions: Vec<Session>,
}

/// The mathematical content of a `UdpRelay`.
pub struct UdpModel {
    pub nets: Seq<NetPattern>,
    pub limit: int,
    pub idle_timeout: int,
    pub sessions: Seq<Session>,
}

/// The position of the first session of `client`, or the number of sessions
/// if it has none.
pub open spec fn position_of(sessions: Seq<Session>, client: SocketAddress) -> int
    decreases sessions.len(),
{
    if sessions.len() == 0 {
        0
    } else if sessions[0].client == client {
        0
    } else {
        1 + position_of(sessions.drop_first(), client)
    }
}

/// Whether `client` has a session.
pub open spec fn has_session(sessions: Seq<Session>, client: SocketAddress) -> bool {
    exists|i: int| 0 <= i < sessions.len() && (#[trigger] sessions[i]).client == client
}

/// Whether no two sessions belong to one client.
pub open spec fn one_session_each(sessions: Seq<Session>) -> bool {
    forall|i: int, j: int|
        0 <= i < j < sessions.len() ==> (#[trigger] sessions[i]).client != (
        #[trigger] sessions[j]).client
}

/// Whether a session has been idle for longer than `timeout` at time `now`.
pub open spec fn is_idle(session: Session, now: int, timeout: int) -> bool {
    now - session.last_activity > timeout
}

/// The sessions that a sweep at time `now` keeps, in their order.
pub open spec fn kept(sessions: Seq<Session>, now: int, timeout: int) -> Seq<Session> {
    sessions.filter(|s: Session| !is_idle(s, now, timeout))
}

/// The clients whose sessions a sweep at time `now` removes, in the order
/// of the table.
pub open spec fn expired(sessions: Seq<Session>, now: int, timeout: int) -> Seq<SocketAddress> {
    sessions.filter(|s: Session| is_idle(s, now, timeout)).map_values(|s: Session| s.client)
}

impl UdpModel {
    /// What holds of every table that the relay can reach: one session per
    /// client, and no more sessions than a limit that is set.
    pub open spec fn wf(self) -> bool {
        &&& one_session_each(self.sessions)
        &&& self.limit > 0 ==> self.sessions.len() <= self.limit
    }

    /// The table of a rule before any datagram.
    pub open spec fn start(nets: Seq<NetPattern>, limit: int, idle_timeout: int) -> UdpModel {
        UdpModel { nets, limit, idle_timeout, sessions: Seq::empty() }
    }

    /// A datagram from `from` arrived at time `now`. The allow-list is asked
    /// first. A sender with a session has it renewed; one without gets a
    /// session if there is room.
    pub open spec fn datagram(self, from: SocketAddress, now: u64) -> (UdpModel, DatagramAction) {
        let at = position_of(self.sessions, from);
        if !allowed(self.nets, from.ip) {
            (self, DatagramAction::DropNotAllowed)
        } else if at < self.sessions.len() {
            (
                UdpModel {
                    sessions: self.sessions.update(
                        at,
                        Session { client: from, last_activity: now },
                    ),
                    ..self
                },
                DatagramAction::Forward,
            )
        } else if !has_room(self.limit, self.sessions.len() as int) {
            (self, DatagramAction::DropOverCapacity)
        } else {
            (
                UdpModel {
                    sessions: self.sessions.push(Session { client: from, last_activity: now }),
                    ..self
                },
                DatagramAction::OpenAndForward,
            )
        }
    }

    /// A reply for `client` came back from the remote side at time `now`.
    /// It is to be delivered, and renews the session, if the client still
    /// has one.
    pub open spec fn reply(self, client: SocketAddress, now: u64) -> (UdpModel, bool) {
        let at = position_of(self.sessions, client);
        if at < self.sessions.len() {
            (
                UdpModel {
                    sessions: self.sessions.update(at, Session { client, last_activity: now }),
                    ..self
                },
                true,
            )
        } else {
            (self, false)
        }
    }

    /// The session of `client` is given up, say because its socket failed.
    /// The result tells whether there was one.
    pub open spec fn forget(self, client: SocketAddress) -> (UdpModel, bool) {
        let at = position_of(self.sessions, client);
        if at < self.sessions.len() {
            (UdpModel { sessions: self.sessions.remove(at), ..self }, true)
        } else {
            (self, false)
        }
    }

    /// The sweep at time `now`: the table without its idle sessions, and the
    /// clients whose sessions are to be closed.
    pub open spec fn sweep(self, now: u64) -> (UdpModel, Seq<SocketAddress>) {
        (
            UdpModel { sessions: kept(self.sessions, now as int, self.idle_timeout), ..self },
            expired(self.sessions, now as int, self.idle_timeout),
        )
    }
}

/// What can happen to a relay.
pub enum UdpEvent {
    /// A datagram arrived from this client.
    Datagram { from: SocketAddress, now: u64 },
    /// A reply for this client came back.
    Reply { client: SocketAddress, now: u64 },
    /// The session of this client was given up.
    Forgotten(SocketAddress),
    /// The table was swept.
    Swept { now: u64 },
}

impl UdpModel {
    /// The table after one event.
    pub open spec fn step(self, event: UdpEvent) -> UdpModel {
        match event {
            UdpEvent::Datagram { from, now } => self.datagram(from, now).0,
            UdpEvent::Reply { client, now } => self.reply(client, now).0,
            UdpEvent::Forgotten(client) => self.forget(client).0,
            UdpEvent::Swept { now } => self.sweep(now).0,
        }
    }

    /// The table after a run of events.
    pub open spec fn after(self, events: Seq<UdpEvent>) -> UdpModel
        decreases events.len(),
    {
        if events.len() == 0 {
            self
        } else {
            self.after(events.drop_last()).step(events.last())
        }
    }
}

impl View for UdpRelay {
    type V = UdpModel;

    open spec fn view(&self) -> UdpModel {
        UdpModel {
            nets: self.admission.nets@,
            limit: self.admission.limit as int,
            idle_timeout: self.idle_timeout as int,
            sessions: self.sessions@,
        }
    }
}

/// The position of a client is that of its first session.
pub proof fn lemma_position_of(sessions: Seq<Session>, client: SocketAddress)
    ensures
        0 <= position_of(sessions, client) <= sessions.len(),
        position_of(sessions, client) < sessions.len() ==> sessions[position_of(
            sessions,
            client,
        )].client == client,
        forall|i: int|
            0 <= i < position_of(sessions, client) ==> (#[trigger] sessions[i]).client != client,
        position_of(sessions, client) < sessions.len() <==> has_session(sessions, client),
    decreases sessions.len(),
{
    if sessions.len() > 0 && sessions[0].client != client {
        let rest = sessions.drop_first();
        lemma_position_of(rest, client);
        assert forall|i: int| 0 <= i < position_of(sessions, client) implies (
        #[trigger] sessions[i]).client != client by {
            if i > 0 {
                assert(sessions[i] == rest[i - 1]);
            }
        }
        if has_session(sessions, client) {
            let i = choose|i: int| 0 <= i < sessions.len() && (#[trigger] sessions[i]).client == client;
            assert(rest[i - 1].client == client);
        }
        if has_session(rest, client) {
            let i = choose|i: int| 0 <= i < rest.len() && (#[trigger] rest[i]).client == client;
            assert(sessions[i + 1].client == client);
        }
    } else if sessions.len() > 0 {
        assert(sessions[0].client == client);
    }
}

/// What a sweep does with a table that has one more session at its end.
pub proof fn lemma_sweep_push(sessions: Seq<Session>, last: Session, now: int, timeout: int)
    ensures
        kept(sessions.push(last), now, timeout) == if is_idle(last, now, timeout) {
            kept(sessions, now, timeout)
        } else {
            kept(sessions, now, timeout).push(last)
        },
        expired(sessions.push(last), now, timeout) == if is_idle(last, now, timeout) {
            expired(sessions, now, timeout).push(last.client)
        } else {
            expired(sessions, now, timeout)
        },
{
    let keep = |s: Session| !is_idle(s, now, timeout);
    let idle = |s: Session| is_idle(s, now, timeout);
    sessions.lemma_filter_push(last, keep);
    sessions.lemma_filter_push(last, idle);
    if is_idle(last, now, timeout) {
        assert(sessions.filter(idle).push(last).map_values(|s: Session| s.client)
            =~= sessions.filter(idle).map_values(|s: Session| s.client).push(last.client));
    }
}

impl UdpRelay {
    /// The relay of a validated rule, with no session yet.
    pub fn new(rule: &ForwardSessionConfig, idle_timeout: u64) -> (r: UdpRelay)
        requires
            rule.wf(),
        ensures
            r@ == UdpModel::start(
                net_patterns_of(rule@.allow_nets),
                rule@.max_connections,
                idle_timeout as int,
            ),
    {
        UdpRelay { admission: Admission::of_rule(rule), idle_timeout, sessions: Vec::new() }
    }

    /// Where in the table the session of `client` is; the number of sessions
    /// if it has none.
    pub fn find(&self, client: SocketAddress) -> (at: usize)
        ensures
            at == position_of(self@.sessions, client),
            at <= self.sessions.len(),
    {
        let n: usize = self.sessions.len();
        let mut at: usize = 0;
        while at < n && self.sessions[at].client != client
            invariant
                n == self.sessions.len(),
                0 <= at <= n,
                forall|i: int| 0 <= i < at ==> (#[trigger] self.sessions@[i]).client != client,
            decreases n - at,
        {
            at = at + 1;
        }
        proof {
            lemma_position_of(self.sessions@, client);
        }
        at
    }

    /// Decides on a datagram that arrived from `from` at time `now`.
    pub fn datagram(&mut self, from: SocketAddress, now: u64) -> (a: DatagramAction)
        ensures
            (final(self)@, a) == old(self)@.datagram(from, now),
    {
        if !self.admission.allows(from.ip) {
            return DatagramAction::DropNotAllowed;
        }
        let at = self.find(from);
        if at < self.sessions.len() {
            self.sessions[at] = Session { client: from, last_activity: now };
            DatagramAction::Forward
        } else if !self.admission.fits(self.sessions.len()) {
            DatagramAction::DropOverCapacity
        } else {
            self.sessions.push(Session { client: from, last_activity: now });
            DatagramAction::OpenAndForward
        }
    }

    /// Records a reply for `client` at time `now`, and says whether it is to
    /// be delivered.
    pub fn reply(&mut self, client: SocketAddress, now: u64) -> (deliver: bool)
        ensures
            (final(self)@, deliver) == old(self)@.reply(client, now),
    {
        let at = self.find(client);
        if at < self.sessions.len() {
            self.sessions[at] = Session { client, last_activity: now };
            true
        } else {
            false
        }
    }

    /// Removes the session of `client`, and says whether it had one.
    pub fn forget(&mut self, client: SocketAddress) -> (found: bool)
        ensures
            (final(self)@, found) == old(self)@.forget(client),
    {
        let at = self.find(client);
        if at < self.sessions.len() {
            self.sessions.remove(at);
            true
        } else {
            false
        }
    }

    /// Removes the sessions that are idle at time `now` and hands back their
    /// clients, whose sockets are to be closed.
    pub fn sweep(&mut self, now: u64) -> (closed: Vec<SocketAddress>)
        ensures
            (final(self)@, closed@) == old(self)@.sweep(now),
    {
        let n: usize = self.sessions.len();
        let mut keep: Vec<Session> = Vec::new();
        let mut closed: Vec<SocketAddress> = Vec::new();
        let mut i: usize = 0;
        let ghost all = self.sessions@;
        let ghost timeout = self.idle_timeout as int;
        proof {
            assert(all.take(0) =~= Seq::empty());
            reveal(Seq::filter);
            assert(kept(Seq::<Session>::empty(), now as int, timeout) =~= Seq::empty());
            assert(expired(Seq::<Session>::empty(), now as int, timeout) =~= Seq::empty());
        }
        while i < n
            invariant
                n == self.sessions.len(),
                all == self.sessions@,
                timeout == self.idle_timeout,
                *self == *old(self),
                0 <= i <= n,
                keep@ == kept(all.take(i as int), now as int, timeout),
                closed@ == expired(all.take(i as int), now as int, timeout),
            decreases n - i,
        {
            let s: Session = self.sessions[i];
            proof {
                assert(all.take(i + 1) =~= all.take(i as int).push(s));
                lemma_sweep_push(all.take(i as int), s, now as int, timeout);
            }
            if now > s.last_activity && now - s.last_activity > self.idle_timeout {
                closed.push(s.client);
            } else {
                keep.push(s);
            }
            i = i + 1;
        }
        assert(all.take(n as int) =~= all);
        self.sessions = keep;
        closed
    }
}

/// What a sweep keeps is what was there and is not idle: nothing new comes
/// in, nothing fresh goes out, and no client gets a second session.
pub proof fn lemma_kept(sessions: Seq<Session>, now: int, timeout: int)
    ensures
        kept(sessions, now, timeout).len() <= sessions.len(),
        forall|i: int|
            0 <= i < kept(sessions, now, timeout).len() ==> sessions.contains(
                #[trigger] kept(sessions, now, timeout)[i],
            ) && !is_idle(kept(sessions, now, timeout)[i], now, timeout),
        forall|i: int|
            0 <= i < sessions.len() && !is_idle(sessions[i], now, timeout) ==> kept(
                sessions,
                now,
                timeout,
            ).contains(#[trigger] sessions[i]),
        one_session_each(sessions) ==> one_session_each(kept(sessions, now, timeout)),
    decreases sessions.len(),
{
    if sessions.len() == 0 {
        reveal(Seq::filter);
        assert(kept(sessions, now, timeout) =~= Seq::empty());
    } else {
        let front = sessions.drop_last();
        let last = sessions.last();
        assert(sessions =~= front.push(last));
        lemma_kept(front, now, timeout);
        lemma_sweep_push(front, last, now, timeout);
        let k = kept(sessions, now, timeout);
        let kf = kept(front, now, timeout);
        assert forall|i: int| 0 <= i < k.len() implies sessions.contains(#[trigger] k[i])
            && !is_idle(k[i], now, timeout) by {
            if i < kf.len() {
                assert(k[i] == kf[i]);
                let j = choose|j: int| 0 <= j < front.len() && front[j] == kf[i];
                assert(sessions[j] == k[i]);
            } else {
                assert(k[i] == last);
                assert(sessions[sessions.len() - 1] == last);
            }
        }
        assert forall|i: int|
            0 <= i < sessions.len() && !is_idle(sessions[i], now, timeout) implies k.contains(
            #[trigger] sessions[i],
        ) by {
            if i < front.len() {
                assert(sessions[i] == front[i]);
                let j = choose|j: int| 0 <= j < kf.len() && kf[j] == front[i];
                assert(k[j] == sessions[i]);
            } else {
                assert(k[k.len() - 1] == sessions[i]);
            }
        }
        if one_session_each(sessions) {
            assert(one_session_each(front)) by {
                assert forall|i: int, j: int| 0 <= i < j < front.len() implies (
                #[trigger] front[i]).client != (#[trigger] front[j]).client by {
                    assert(front[i] == sessions[i] && front[j] == sessions[j]);
                }
            }
            assert forall|i: int, j: int| 0 <= i < j < k.len() implies (#[trigger] k[i]).client != (
            #[trigger] k[j]).client by {
                if j < kf.len() {
                    assert(k[i] == kf[i] && k[j] == kf[j]);
                } else {
                    assert(k[j] == last);
                    assert(k[i] == kf[i]);
                    let a = choose|a: int| 0 <= a < front.len() && front[a] == kf[i];
                    assert(sessions[a] == k[i]);
                    assert(sessions[sessions.len() - 1] == last);
                }
            }
        }
    }
}

/// The clients that a sweep closes are those of the idle sessions.
pub proof fn lemma_expired(sessions: Seq<Session>, now: int, timeout: int)
    ensures
        forall|i: int|
            0 <= i < sessions.len() && is_idle(sessions[i], now, timeout) ==> expired(
                sessions,
                now,
                timeout,
            ).contains((#[trigger] sessions[i]).client),
        forall|c: SocketAddress| #[trigger]
            expired(sessions, now, timeout).contains(c) ==> exists|i: int|
                0 <= i < sessions.len() && is_idle(#[trigger] sessions[i], now, timeout)
                    && sessions[i].client == c,
    decreases sessions.len(),
{
    if sessions.len() == 0 {
        reveal(Seq::filter);
        assert(expired(sessions, now, timeout) =~= Seq::empty());
    } else {
        let front = sessions.drop_last();
        let last = sessions.last();
        assert(sessions =~= front.push(last));
        lemma_expired(front, now, timeout);
        lemma_sweep_push(front, last, now, timeout);
        let e = expired(sessions, now, timeout);
        let ef = expired(front, now, timeout);
        assert forall|i: int|
            0 <= i < sessions.len() && is_idle(sessions[i], now, timeout) implies e.contains(
            (#[trigger] sessions[i]).client,
        ) by {
            if i < front.len() {
                assert(sessions[i] == front[i]);
                let j = choose|j: int| 0 <= j < ef.len() && ef[j] == front[i].client;
                assert(e[j] == sessions[i].client);
            } else {
                assert(e[e.len() - 1] == sessions[i].client);
            }
        }
        assert forall|c: SocketAddress| #[trigger] e.contains(c) implies exists|i: int|
            0 <= i < sessions.len() && is_idle(#[trigger] sessions[i], now, timeout)
                && sessions[i].client == c by {
            let j = choose|j: int| 0 <= j < e.len() && e[j] == c;
            if j < ef.len() {
                assert(ef[j] == c);
                assert(ef.contains(c));
                let i = choose|i: int|
                    0 <= i < front.len() && is_idle(#[trigger] front[i], now, timeout)
                        && front[i].client == c;
                assert(sessions[i] == front[i]);
            } else {
                assert(sessions[sessions.len() - 1] == last);
            }
        }
    }
}

/// A relay without sessions is within every limit.
pub proof fn law_start_is_wf(nets: Seq<NetPattern>, limit: int, idle_timeout: int)
    ensures
        UdpModel::start(nets, limit, idle_timeout).wf(),
{
}

/// A datagram leaves the table with one session per client and within its
/// limit.
pub proof fn law_datagram_keeps_wf(m: UdpModel, from: SocketAddress, now: u64)
    requires
        m.wf(),
    ensures
        m.datagram(from, now).0.wf(),
{
    lemma_position_of(m.sessions, from);
    let after = m.datagram(from, now).0.sessions;
    let at = position_of(m.sessions, from);
    assert forall|i: int, j: int| 0 <= i < j < after.len() implies (#[trigger] after[i]).client != (
    #[trigger] after[j]).client by {
        if j < m.sessions.len() {
            assert(after[i].client == m.sessions[i].client);
            assert(after[j].client == m.sessions[j].client);
        } else {
            assert(after[i] == m.sessions[i]);
        }
    }
}

/// A reply leaves the table with one session per client and within its
/// limit.
pub proof fn law_reply_keeps_wf(m: UdpModel, client: SocketAddress, now: u64)
    requires
        m.wf(),
    ensures
        m.reply(client, now).0.wf(),
{
    lemma_position_of(m.sessions, client);
    let after = m.reply(client, now).0.sessions;
    assert forall|i: int, j: int| 0 <= i < j < after.len() implies (#[trigger] after[i]).client != (
    #[trigger] after[j]).client by {
        assert(after[i].client == m.sessions[i].client);
        assert(after[j].client == m.sessions[j].client);
    }
}

/// Giving up a session leaves the table with one session per client and
/// within its limit, and the client without a session.
pub proof fn law_forget_keeps_wf(m: UdpModel, client: SocketAddress)
    requires
        m.wf(),
    ensures
        m.forget(client).0.wf(),
        !has_session(m.forget(client).0.sessions, client),
{
    lemma_position_of(m.sessions, client);
    let at = position_of(m.sessions, client);
    let after = m.forget(client).0.sessions;
    if at < m.sessions.len() {
        assert forall|i: int, j: int| 0 <= i < j < after.len() implies (#[trigger] after[i]).client
            != (#[trigger] after[j]).client by {
            let a = if i < at {
                i
            } else {
                i + 1
            };
            let b = if j < at {
                j
            } else {
                j + 1
            };
            assert(after[i] == m.sessions[a] && after[j] == m.sessions[b]);
        }
        if has_session(after, client) {
            let i = choose|i: int| 0 <= i < after.len() && (#[trigger] after[i]).client == client;
            let a = if i < at {
                i
            } else {
                i + 1
            };
            assert(after[i] == m.sessions[a]);
            if a < at {
                assert(m.sessions[a].client != m.sessions[at].client);
            } else {
                assert(m.sessions[at].client != m.sessions[a].client);
            }
        }
    }
}

/// A sweep leaves the table with one session per client and within its
/// limit.
pub proof fn law_sweep_keeps_wf(m: UdpModel, now: u64)
    requires
        m.wf(),
    ensures
        m.sweep(now).0.wf(),
{
    lemma_kept(m.sessions, now as int, m.idle_timeout);
}

/// A datagram from an address that a non-empty allow-list does not hold is
/// dropped and leaves the table as it was; one from an allowed address is
/// relayed if its sender has a session or there is room for one.
pub proof fn law_datagram_allow_list(m: UdpModel, from: SocketAddress, now: u64)
    ensures
        !allowed(m.nets, from.ip) ==> m.nets.len() > 0 && m.datagram(from, now) == (
            m,
            DatagramAction::DropNotAllowed,
        ),
        allowed(m.nets, from.ip) && (has_session(m.sessions, from) || has_room(
            m.limit,
            m.sessions.len() as int,
        )) ==> m.datagram(from, now).1 is Forward || m.datagram(from, now).1 is OpenAndForward,
        m.datagram(from, now).1 is Forward || m.datagram(from, now).1 is OpenAndForward
            ==> allowed(m.nets, from.ip),
{
    lemma_position_of(m.sessions, from);
}

/// A relayed datagram leaves its sender with exactly one session, last
/// active at the time of the datagram.
pub proof fn law_relayed_sender_has_one_session(m: UdpModel, from: SocketAddress, now: u64)
    requires
        m.wf(),
        m.datagram(from, now).1 is Forward || m.datagram(from, now).1 is OpenAndForward,
    ensures
        ({
            let after = m.datagram(from, now).0.sessions;
            let at = position_of(after, from);
            &&& 0 <= at < after.len()
            &&& after[at] == Session { client: from, last_activity: now }
            &&& forall|i: int| 0 <= i < after.len() && i != at ==> (#[trigger] after[i]).client != from
        }),
{
    let after = m.datagram(from, now).0.sessions;
    lemma_position_of(m.sessions, from);
    law_datagram_keeps_wf(m, from, now);
    let old_at = position_of(m.sessions, from);
    assert(after[old_at].client == from);
    lemma_position_of(after, from);
    let at = position_of(after, from);
    assert(at == old_at) by {
        if at < old_at {
            assert(after[at].client == from);
        }
    }
    assert forall|i: int| 0 <= i < after.len() && i != at implies (#[trigger] after[i]).client
        != from by {
        if i < at {
            assert(after[i].client != after[at].client);
        } else {
            assert(after[at].client != after[i].client);
        }
    }
}

/// Two datagrams from one client share one session: if the first is
/// relayed, the second is relayed over the session that is there, and the
/// table has no more sessions than after the first.
pub proof fn law_session_is_reused(m: UdpModel, from: SocketAddress, first: u64, second: u64)
    requires
        m.wf(),
        m.datagram(from, first).1 is Forward || m.datagram(from, first).1 is OpenAndForward,
    ensures
        ({
            let (once, _) = m.datagram(from, first);
            let (twice, action) = once.datagram(from, second);
            &&& action == DatagramAction::Forward
            &&& twice.sessions.len() == once.sessions.len()
            &&& twice.sessions == once.sessions.update(
                position_of(once.sessions, from),
                Session { client: from, last_activity: second },
            )
        }),
{
    law_relayed_sender_has_one_session(m, from, first);
}

/// A session that has been idle for longer than the timeout is removed by
/// the sweep, and its client is among those handed back for closing.
pub proof fn law_idle_session_is_swept(m: UdpModel, client: SocketAddress, now: u64)
    requires
        m.wf(),
        has_session(m.sessions, client),
        is_idle(m.sessions[position_of(m.sessions, client)], now as int, m.idle_timeout),
    ensures
        !has_session(m.sweep(now).0.sessions, client),
        m.sweep(now).1.contains(client),
        m.sweep(now).0.sessions.len() < m.sessions.len(),
{
    let timeout = m.idle_timeout;
    let at = position_of(m.sessions, client);
    lemma_position_of(m.sessions, client);
    lemma_kept(m.sessions, now as int, timeout);
    lemma_expired(m.sessions, now as int, timeout);
    let k = kept(m.sessions, now as int, timeout);
    if has_session(k, client) {
        let i = choose|i: int| 0 <= i < k.len() && (#[trigger] k[i]).client == client;
        assert(m.sessions.contains(k[i]));
        let j = choose|j: int| 0 <= j < m.sessions.len() && m.sessions[j] == k[i];
        if j < at {
            assert(m.sessions[j].client != m.sessions[at].client);
        } else if at < j {
            assert(m.sessions[at].client != m.sessions[j].client);
        }
        assert(false);
    }
    assert(expired(m.sessions, now as int, timeout).contains(m.sessions[at].client));
    lemma_kept_shrinks(m.sessions, at, now as int, timeout);
}

/// A sweep that meets an idle session leaves fewer sessions than it found.
pub proof fn lemma_kept_shrinks(sessions: Seq<Session>, at: int, now: int, timeout: int)
    requires
        0 <= at < sessions.len(),
        is_idle(sessions[at], now, timeout),
    ensures
        kept(sessions, now, timeout).len() < sessions.len(),
    decreases sessions.len(),
{
    let front = sessions.drop_last();
    let last = sessions.last();
    assert(sessions =~= front.push(last));
    lemma_sweep_push(front, last, now, timeout);
    lemma_kept(front, now, timeout);
    if at < front.len() {
        assert(front[at] == sessions[at]);
        lemma_kept_shrinks(front, at, now, timeout);
    }
}

/// After its session was swept, a client that the allow-list lets in starts
/// anew: its next datagram opens a session.
pub proof fn law_swept_client_starts_anew(
    m: UdpModel,
    client: SocketAddress,
    now: u64,
    later: u64,
)
    requires
        m.wf(),
        has_session(m.sessions, client),
        is_idle(m.sessions[position_of(m.sessions, client)], now as int, m.idle_timeout),
        allowed(m.nets, client.ip),
    ensures
        m.sweep(now).0.datagram(client, later).1 == DatagramAction::OpenAndForward,
{
    law_idle_session_is_swept(m, client, now);
    lemma_position_of(m.sweep(now).0.sessions, client);
}

/// A session that is not idle outlives the sweep unchanged, and its client
/// is not handed back for closing.
pub proof fn law_fresh_session_survives(m: UdpModel, client: SocketAddress, now: u64)
    requires
        m.wf(),
        has_session(m.sessions, client),
        !is_idle(m.sessions[position_of(m.sessions, client)], now as int, m.idle_timeout),
    ensures
        m.sweep(now).0.sessions.contains(m.sessions[position_of(m.sessions, client)]),
        !m.sweep(now).1.contains(client),
{
    let timeout = m.idle_timeout;
    let at = position_of(m.sessions, client);
    lemma_position_of(m.sessions, client);
    lemma_kept(m.sessions, now as int, timeout);
    lemma_expired(m.sessions, now as int, timeout);
    if expired(m.sessions, now as int, timeout).contains(client) {
        let i = choose|i: int|
            0 <= i < m.sessions.len() && is_idle(#[trigger] m.sessions[i], now as int, timeout)
                && m.sessions[i].client == client;
        if i < at {
            assert(m.sessions[i].client != m.sessions[at].client);
        } else if at < i {
            assert(m.sessions[at].client != m.sessions[i].client);
        }
        assert(false);
    }
}

/// A reply finds the client that its session belongs to: after a datagram
/// of a client was relayed, a reply for that client is delivered.
pub proof fn law_reply_reaches_sender(m: UdpModel, from: SocketAddress, sent: u64, answered: u64)
    requires
        m.wf(),
        m.datagram(from, sent).1 is Forward || m.datagram(from, sent).1 is OpenAndForward,
    ensures
        m.datagram(from, sent).0.reply(from, answered).1,
{
    law_relayed_sender_has_one_session(m, from, sent);
}

/// Whatever happens, in whatever order, no client ever has two sessions,
/// and the table never holds more sessions than its limit allows.
pub proof fn law_table_is_always_wf(
    nets: Seq<NetPattern>,
    limit: int,
    idle_timeout: int,
    events: Seq<UdpEvent>,
)
    ensures
        UdpModel::start(nets, limit, idle_timeout).after(events).wf(),
    decreases events.len(),
{
    let start = UdpModel::start(nets, limit, idle_timeout);
    if events.len() == 0 {
        law_start_is_wf(nets, limit, idle_timeout);
    } else {
        law_table_is_always_wf(nets, limit, idle_timeout, events.drop_last());
        let before = start.after(events.drop_last());
        match events.last() {
            UdpEvent::Datagram { from, now } => law_datagram_keeps_wf(before, from, now),
            UdpEvent::Reply { client, now } => law_reply_keeps_wf(before, client, now),
            UdpEvent::Forgotten(client) => law_forget_keeps_wf(before, client),
            UdpEvent::Swept { now } => law_sweep_keeps_wf(before, now),
        }
    }
}

} // verus!
