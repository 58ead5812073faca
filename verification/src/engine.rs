//! The engine of one rule: which relays it runs, and when it is done.
//!
//! An engine starts a relay for each protocol that its rule enables and
//! lasts until every one of them has ended. A relay that cannot bind its
//! local address fails the whole engine: it is to stop its other relay and
//! report the failure, while the engines of other rules go on.

use crate::forward_config::ForwardSessionConfig;
use vstd::prelude::*;

verus! {

/// The two protocols that a rule can forward.
#[derive(Clone, Copy, Debug, PartialEq, Eq, Structural)]
pub enum Protocol {
    Tcp,
    Udp,
}

/// Where one relay of an engine stands.
#[derive(Clone, Copy, Debug, PartialEq, Eq, Structural)]
pub enum RelayStatus {
    /// The rule does not enable this protocol.
    Disabled,
    /// The relay has yet to bind its local address.
    Starting,
    /// The relay is bound and serves clients.
    Running,
    /// The relay has ended after it had run.
    Stopped,
    /// The relay could not bind its local address.
    Failed,
}

/// What an engine is to do after an event.
#[derive(Clone, Copy, Debug, PartialEq, Eq, Structural)]
pub enum EngineAction {
    /// Go on waiting for its relays.
    Wait,
    /// End with success: no relay is left.
    Finish,
    /// End with failure: stop what still runs and report the bind failure.
    Abort,
}

/// The relays of one rule.
#[derive(Clone, Copy, Debug, PartialEq, Eq, Structural)]
pub struct ForwardEngine {
    pub tcp: RelayStatus,
    pub udp: RelayStatus,
}

/// Whether a relay in this status is still to be waited for.
pub open spec fn is_pending(status: RelayStatus) -> bool {
    status is Starting || status is Running
}

/// The status after the relay reported whether it could bind: only a
/// starting relay changes.
pub open spec fn after_bind(status: RelayStatus, bound: bool) -> RelayStatus {
    if status is Starting {
        if bound {
            RelayStatus::Running
        } else {
            RelayStatus::Failed
        }
    } else {
        status
    }
}

/// The status after the relay reported that it ended: only a running relay
/// changes.
pub open spec fn after_exit(status: RelayStatus) -> RelayStatus {
    if status is Running {
        RelayStatus::Stopped
    } else {
        status
    }
}

impl ForwardEngine {
    /// The engine of a rule before any relay has reported.
    pub open spec fn start(enable_tcp: bool, enable_udp: bool) -> ForwardEngine {
        ForwardEngine {
            tcp: if enable_tcp {
                RelayStatus::Starting
            } else {
                RelayStatus::Disabled
            },
            udp: if enable_udp {
                RelayStatus::Starting
            } else {
                RelayStatus::Disabled
            },
        }
    }

    /// The status of the relay for `protocol`.
    pub open spec fn status(self, protocol: Protocol) -> RelayStatus {
        match protocol {
            Protocol::Tcp => self.tcp,
            Protocol::Udp => self.udp,
        }
    }

    /// The engine with the relay for `protocol` in another status.
    pub open spec fn with_status(self, protocol: Protocol, status: RelayStatus) -> ForwardEngine {
        match protocol {
            Protocol::Tcp => ForwardEngine { tcp: status, ..self },
            Protocol::Udp => ForwardEngine { udp: status, ..self },
        }
    }

    /// Whether a relay could not bind.
    pub open spec fn failed(self) -> bool {
        self.tcp is Failed || self.udp is Failed
    }

    /// Whether the engine is over: a relay failed, or none is left to wait
    /// for.
    pub open spec fn finished(self) -> bool {
        self.failed() || (!is_pending(self.tcp) && !is_pending(self.udp))
    }

    /// What the engine is to do in this state.
    pub open spec fn action(self) -> EngineAction {
        if self.failed() {
            EngineAction::Abort
        } else if self.finished() {
            EngineAction::Finish
        } else {
            EngineAction::Wait
        }
    }

    /// Sets up the engine of a rule.
    pub fn new(rule: &ForwardSessionConfig) -> (r: ForwardEngine)
        ensures
            r == ForwardEngine::start(rule.enable_tcp, rule.enable_udp),
    {
        ForwardEngine {
            tcp: if rule.enable_tcp {
                RelayStatus::Starting
            } else {
                RelayStatus::Disabled
            },
            udp: if rule.enable_udp {
                RelayStatus::Starting
            } else {
                RelayStatus::Disabled
            },
        }
    }

    /// Whether the relay for `protocol` is to be launched.
    pub fn launches(&self, protocol: Protocol) -> (b: bool)
        ensures
            b == (self.status(protocol) is Starting),
    {
        match protocol {
            Protocol::Tcp => matches!(self.tcp, RelayStatus::Starting),
            Protocol::Udp => matches!(self.udp, RelayStatus::Starting),
        }
    }

    /// What the engine is to do now.
    pub fn next_action(&self) -> (a: EngineAction)
        ensures
            a == self.action(),
    {
        let failed = matches!(self.tcp, RelayStatus::Failed) || matches!(
            self.udp,
            RelayStatus::Failed
        );
        let pending = matches!(self.tcp, RelayStatus::Starting | RelayStatus::Running) || matches!(
            self.udp,
            RelayStatus::Starting | RelayStatus::Running
        );
        if failed {
            EngineAction::Abort
        } else if pending {
            EngineAction::Wait
        } else {
            EngineAction::Finish
        }
    }

    /// Records whether the relay for `protocol` could bind its local
    /// address, and says how the engine goes on.
    pub fn bind_finished(&mut self, protocol: Protocol, bound: bool) -> (a: EngineAction)
        ensures
            *final(self) == old(self).with_status(
                protocol,
                after_bind(old(self).status(protocol), bound),
            ),
            a == final(self).action(),
    {
        match protocol {
            Protocol::Tcp => {
                if matches!(self.tcp, RelayStatus::Starting) {
                    self.tcp = if bound {
                        RelayStatus::Running
                    } else {
                        RelayStatus::Failed
                    };
                }
            },
            Protocol::Udp => {
                if matches!(self.udp, RelayStatus::Starting) {
                    self.udp = if bound {
                        RelayStatus::Running
                    } else {
                        RelayStatus::Failed
                    };
                }
            },
        }
        self.next_action()
    }

    /// Records that the relay for `protocol` has ended, and says how the
    /// engine goes on.
    pub fn relay_exited(&mut self, protocol: Protocol) -> (a: EngineAction)
        ensures
            *final(self) == old(self).with_status(protocol, after_exit(old(self).status(protocol))),
            a == final(self).action(),
    {
        match protocol {
            Protocol::Tcp => {
                if matches!(self.tcp, RelayStatus::Running) {
                    self.tcp = RelayStatus::Stopped;
                }
            },
            Protocol::Udp => {
                if matches!(self.udp, RelayStatus::Running) {
                    self.udp = RelayStatus::Stopped;
                }
            },
        }
        self.next_action()
    }
}

/// An engine launches exactly the relays that its rule enables, and one
/// whose rule enables neither has nothing to wait for.
pub proof fn law_engine_follows_flags(enable_tcp: bool, enable_udp: bool)
    ensures
        ForwardEngine::start(enable_tcp, enable_udp).tcp is Starting == enable_tcp,
        ForwardEngine::start(enable_tcp, enable_udp).udp is Starting == enable_udp,
        ForwardEngine::start(enable_tcp, enable_udp).action() == if enable_tcp || enable_udp {
            EngineAction::Wait
        } else {
            EngineAction::Finish
        },
{
}

/// A relay that cannot bind ends its engine with failure, whatever the
/// other relay does.
pub proof fn law_bind_failure_is_fatal(engine: ForwardEngine, protocol: Protocol)
    requires
        engine.status(protocol) is Starting,
    ensures
        engine.with_status(protocol, after_bind(engine.status(protocol), false)).action()
            == EngineAction::Abort,
{
}

} // verus!
