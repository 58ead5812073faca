//! Forwarding rules and their validation.
//!
//! A rule is built from raw fields, each of which may be missing, present
//! with the expected type, or present with another type. `local` and `remote`
//! are mandatory and must be endpoints; every other field has a default.

use crate::addr::{is_endpoint, is_endpoint_text, net_pattern_of, NetPattern};
use crate::text::texts;
use vstd::prelude::*;

verus! {

/// The relay buffer size of a rule that names none.
pub const DEFAULT_CONN_BUFSIZE: usize = 4096;

/// The connection limit of a rule that names none: no limit.
pub const UNLIMITED_CONNECTIONS: i64 = -1;

/// One raw field of a rule, before validation.
#[derive(Clone, Debug, PartialEq, Eq)]
pub enum Entry<T> {
    /// The field is not there.
    Missing,
    /// The field is there and has the type that the rule expects.
    Present(T),
    /// The field is there with a value of another type.
    Malformed,
}

/// The raw fields of one rule.
#[derive(Clone, Debug, PartialEq, Eq)]
pub struct RawRule {
    pub local: Entry<String>,
    pub remote: Entry<String>,
    pub enable_tcp: Entry<bool>,
    pub enable_udp: Entry<bool>,
    pub conn_bufsize: Entry<i64>,
    pub allow_nets: Entry<Vec<String>>,
    pub max_connections: Entry<i64>,
}

/// The mathematical content of the raw fields of one rule.
pub struct RawRuleModel {
    pub local: Entry<Seq<char>>,
    pub remote: Entry<Seq<char>>,
    pub enable_tcp: Entry<bool>,
    pub enable_udp: Entry<bool>,
    pub conn_bufsize: Entry<i64>,
    pub allow_nets: Entry<Seq<Seq<char>>>,
    pub max_connections: Entry<i64>,
}

/// Why raw fields do not make a rule.
#[derive(Clone, Copy, Debug, PartialEq, Eq, Structural)]
pub enum ConfigError {
    /// `local` is missing or is not text.
    MissingLocal,
    /// `local` is not an endpoint.
    InvalidLocal,
    /// `remote` is missing or is not text.
    MissingRemote,
    /// `remote` is not an endpoint.
    InvalidRemote,
    /// `enable_tcp` is not a boolean.
    InvalidEnableTcp,
    /// `enable_udp` is not a boolean.
    InvalidEnableUdp,
    /// `conn_bufsize` is not a positive integer that fits the machine.
    InvalidConnBufsize,
    /// `allow_nets` is not a list of network patterns.
    InvalidAllowNets,
    /// `max_connections` is not an integer.
    InvalidMaxConnections,
}

/// What to tell the user about a fault.
pub open spec fn message_of(fault: ConfigError) -> Seq<char> {
    match fault {
        ConfigError::MissingLocal => "missing local"@,
        ConfigError::InvalidLocal => "invalid local"@,
        ConfigError::MissingRemote => "missing remote"@,
        ConfigError::InvalidRemote => "invalid remote"@,
        ConfigError::InvalidEnableTcp => "invalid enable_tcp"@,
        ConfigError::InvalidEnableUdp => "invalid enable_udp"@,
        ConfigError::InvalidConnBufsize => "invalid conn_bufsize"@,
        ConfigError::InvalidAllowNets => "invalid allow_nets"@,
        ConfigError::InvalidMaxConnections => "invalid max_connections"@,
    }
}

impl ConfigError {
    /// What to tell the user about this fault.
    pub fn message(&self) -> (r: &'static str)
        ensures
            r@ == message_of(*self),
    {
        match self {
            ConfigError::MissingLocal => "missing local",
            ConfigError::InvalidLocal => "invalid local",
            ConfigError::MissingRemote => "missing remote",
            ConfigError::InvalidRemote => "invalid remote",
            ConfigError::InvalidEnableTcp => "invalid enable_tcp",
            ConfigError::InvalidEnableUdp => "invalid enable_udp",
            ConfigError::InvalidConnBufsize => "invalid conn_bufsize",
            ConfigError::InvalidAllowNets => "invalid allow_nets",
            ConfigError::InvalidMaxConnections => "invalid max_connections",
        }
    }
}

/// One forwarding intent: where to listen, where to forward to, and the
/// limits on who may connect and how many at a time.
#[derive(Clone, Debug, PartialEq, Eq)]
pub struct ForwardSessionConfig {
    /// Endpoint to listen or receive on.
    pub local: String,
    /// Endpoint to forward to.
    pub remote: String,
    pub enable_tcp: bool,
    pub enable_udp: bool,
    /// Size of the relay buffer, per direction and connection.
    pub conn_bufsize: usize,
    /// Networks that clients may come from; empty for all.
    pub allow_nets: Vec<String>,
    /// Most connections or sessions at a time; zero or less for no limit.
    pub max_connections: i64,
}

/// The mathematical content of a rule.
pub struct RuleModel {
    pub local: Seq<char>,
    pub remote: Seq<char>,
    pub enable_tcp: bool,
    pub enable_udp: bool,
    pub conn_bufsize: int,
    pub allow_nets: Seq<Seq<char>>,
    pub max_connections: int,
}

/// Whether every text is a network pattern.
pub open spec fn all_net_patterns(nets: Seq<Seq<char>>) -> bool {
    forall|i: int| 0 <= i < nets.len() ==> net_pattern_of(#[trigger] nets[i]) is Some
}

/// The patterns that a list of pattern texts stands for.
pub open spec fn net_patterns_of(nets: Seq<Seq<char>>) -> Seq<NetPattern> {
    nets.map_values(|s: Seq<char>| net_pattern_of(s).unwrap())
}

impl View for RawRule {
    type V = RawRuleModel;

    open spec fn view(&self) -> RawRuleModel {
        RawRuleModel {
            local: match self.local {
                Entry::Missing => Entry::Missing,
                Entry::Present(s) => Entry::Present(s@),
                Entry::Malformed => Entry::Malformed,
            },
            remote: match self.remote {
                Entry::Missing => Entry::Missing,
                Entry::Present(s) => Entry::Present(s@),
                Entry::Malformed => Entry::Malformed,
            },
            enable_tcp: self.enable_tcp,
            enable_udp: self.enable_udp,
            conn_bufsize: self.conn_bufsize,
            allow_nets: match self.allow_nets {
                Entry::Missing => Entry::Missing,
                Entry::Present(v) => Entry::Present(texts(v@)),
                Entry::Malformed => Entry::Malformed,
            },
            max_connections: self.max_connections,
        }
    }
}

impl RuleModel {
    /// What validation promises of a rule.
    pub open spec fn wf(self) -> bool {
        &&& is_endpoint(self.local)
        &&& is_endpoint(self.remote)
        &&& 0 < self.conn_bufsize
        &&& all_net_patterns(self.allow_nets)
    }
}

impl View for ForwardSessionConfig {
    type V = RuleModel;

    open spec fn view(&self) -> RuleModel {
        RuleModel {
            local: self.local@,
            remote: self.remote@,
            enable_tcp: self.enable_tcp,
            enable_udp: self.enable_udp,
            conn_bufsize: self.conn_bufsize as int,
            allow_nets: texts(self.allow_nets@),
            max_connections: self.max_connections as int,
        }
    }
}

/// The first fault in the raw fields, taken in the order `local`, `remote`,
/// `enable_tcp`, `enable_udp`, `conn_bufsize`, `allow_nets`,
/// `max_connections`; `None` if they make a rule.
pub open spec fn first_fault(raw: RawRuleModel) -> Option<ConfigError> {
    if !(raw.local is Present) {
        Some(ConfigError::MissingLocal)
    } else if !is_endpoint(raw.local->Present_0) {
        Some(ConfigError::InvalidLocal)
    } else if !(raw.remote is Present) {
        Some(ConfigError::MissingRemote)
    } else if !is_endpoint(raw.remote->Present_0) {
        Some(ConfigError::InvalidRemote)
    } else if raw.enable_tcp is Malformed {
        Some(ConfigError::InvalidEnableTcp)
    } else if raw.enable_udp is Malformed {
        Some(ConfigError::InvalidEnableUdp)
    } else if raw.conn_bufsize is Malformed || (raw.conn_bufsize matches Entry::Present(n) && !(0 < n
        <= usize::MAX)) {
        Some(ConfigError::InvalidConnBufsize)
    } else if raw.allow_nets is Malformed || (raw.allow_nets matches Entry::Present(nets)
        && !all_net_patterns(nets)) {
        Some(ConfigError::InvalidAllowNets)
    } else if raw.max_connections is Malformed {
        Some(ConfigError::InvalidMaxConnections)
    } else {
        None
    }
}

/// The rule that faultless raw fields make: each field as given, or its
/// default where it is missing.
pub open spec fn rule_of(raw: RawRuleModel) -> RuleModel {
    RuleModel {
        local: raw.local->Present_0,
        remote: raw.remote->Present_0,
        enable_tcp: match raw.enable_tcp {
            Entry::Present(b) => b,
            _ => true,
        },
        enable_udp: match raw.enable_udp {
            Entry::Present(b) => b,
            _ => true,
        },
        conn_bufsize: match raw.conn_bufsize {
            Entry::Present(n) => n as int,
            _ => DEFAULT_CONN_BUFSIZE as int,
        },
        allow_nets: match raw.allow_nets {
            Entry::Present(nets) => nets,
            _ => Seq::empty(),
        },
        max_connections: match raw.max_connections {
            Entry::Present(n) => n as int,
            _ => UNLIMITED_CONNECTIONS as int,
        },
    }
}

/// What validation makes of raw fields: the rule, or the first fault.
pub open spec fn validated(raw: RawRuleModel) -> Result<RuleModel, ConfigError> {
    match first_fault(raw) {
        Some(fault) => Err(fault),
        None => Ok(rule_of(raw)),
    }
}

/// The raw fields of a rule that is given by its endpoints and protocol
/// switches alone.
pub open spec fn plain_fields(
    local: Seq<char>,
    remote: Seq<char>,
    enable_tcp: bool,
    enable_udp: bool,
) -> RawRuleModel {
    RawRuleModel {
        local: Entry::Present(local),
        remote: Entry::Present(remote),
        enable_tcp: Entry::Present(enable_tcp),
        enable_udp: Entry::Present(enable_udp),
        conn_bufsize: Entry::Missing,
        allow_nets: Entry::Missing,
        max_connections: Entry::Missing,
    }
}

/// Faultless raw fields make a well-formed rule.
pub proof fn lemma_rule_of_wf(raw: RawRuleModel)
    requires
        first_fault(raw) is None,
    ensures
        rule_of(raw).wf(),
{
}

/// Raw fields without a text for `local`, without a text for `remote`, or
/// with an `enable_tcp` or `enable_udp` that is no boolean, make no rule.
pub proof fn law_incomplete_fields_are_rejected(raw: RawRuleModel)
    requires
        !(raw.local is Present) || !(raw.remote is Present) || raw.enable_tcp is Malformed
            || raw.enable_udp is Malformed,
    ensures
        validated(raw) is Err,
{
}

/// Copies the pattern texts if each of them is a network pattern.
fn checked_nets(nets: &Vec<String>) -> (r: Option<Vec<String>>)
    ensures
        r is Some == all_net_patterns(texts(nets@)),
        r matches Some(v) ==> texts(v@) == texts(nets@),
{
    let mut out: Vec<String> = Vec::new();
    let n: usize = nets.len();
    let mut i: usize = 0;
    while i < n
        invariant
            n == nets.len(),
            0 <= i <= n,
            out@.len() == i,
            forall|j: int| 0 <= j < i ==> out@[j]@ == nets@[j]@,
            forall|j: int| 0 <= j < i ==> net_pattern_of(#[trigger] texts(nets@)[j]) is Some,
        decreases n - i,
    {
        match NetPattern::parse(nets[i].as_str()) {
            Some(_) => {
                out.push(nets[i].clone());
            },
            None => {
                assert(net_pattern_of(texts(nets@)[i as int]) is None);
                return None;
            },
        }
        i = i + 1;
    }
    assert(texts(out@) =~= texts(nets@));
    Some(out)
}

impl ForwardSessionConfig {
    /// What validation promises of a rule: both endpoints parse, the buffer
    /// is not empty, and every allowed network is a pattern.
    pub open spec fn wf(&self) -> bool {
        self@.wf()
    }

    /// The rule between two endpoints, with defaults for all limits.
    pub fn new(local: &str, remote: &str, enable_tcp: bool, enable_udp: bool) -> (r: Result<
        ForwardSessionConfig,
        ConfigError,
    >)
        ensures
            match r {
                Ok(rule) => validated(plain_fields(local@, remote@, enable_tcp, enable_udp)) == Ok::<
                    RuleModel,
                    ConfigError,
                >(rule@) && rule.wf(),
                Err(e) => validated(plain_fields(local@, remote@, enable_tcp, enable_udp)) == Err::<
                    RuleModel,
                    ConfigError,
                >(e),
            },
    {
        let raw = RawRule {
            local: Entry::Present(local.to_owned()),
            remote: Entry::Present(remote.to_owned()),
            enable_tcp: Entry::Present(enable_tcp),
            enable_udp: Entry::Present(enable_udp),
            conn_bufsize: Entry::Missing,
            allow_nets: Entry::Missing,
            max_connections: Entry::Missing,
        };
        ForwardSessionConfig::from_fields(&raw)
    }

    /// Tests what validation promises. A rule that `from_fields` built
    /// passes; one put together by hand, or changed since, may not.
    pub fn is_valid(&self) -> (b: bool)
        ensures
            b == self.wf(),
    {
        is_endpoint_text(self.local.as_str()) && is_endpoint_text(self.remote.as_str())
            && self.conn_bufsize > 0 && self.networks().is_some()
    }

    /// The allowed networks in parsed form; `None` if one of the texts is no
    /// network pattern.
    pub fn networks(&self) -> (r: Option<Vec<NetPattern>>)
        ensures
            r is Some == all_net_patterns(self@.allow_nets),
            r matches Some(v) ==> v@ == net_patterns_of(self@.allow_nets),
    {
        let n: usize = self.allow_nets.len();
        let mut out: Vec<NetPattern> = Vec::new();
        let mut i: usize = 0;
        while i < n
            invariant
                n == self.allow_nets.len(),
                0 <= i <= n,
                out@.len() == i,
                forall|j: int|
                    0 <= j < i ==> net_pattern_of(#[trigger] self@.allow_nets[j]) == Some(out@[j]),
            decreases n - i,
        {
            match NetPattern::parse(self.allow_nets[i].as_str()) {
                Some(net) => {
                    out.push(net);
                },
                None => {
                    assert(net_pattern_of(self@.allow_nets[i as int]) is None);
                    return None;
                },
            }
            i = i + 1;
        }
        assert(out@ =~= net_patterns_of(self@.allow_nets));
        Some(out)
    }

    /// Validates raw fields. The result is the rule they make, or the first
    /// fault among them.
    pub fn from_fields(raw: &RawRule) -> (r: Result<ForwardSessionConfig, ConfigError>)
        ensures
            match r {
                Ok(rule) => validated(raw@) == Ok::<RuleModel, ConfigError>(rule@) && rule.wf(),
                Err(e) => validated(raw@) == Err::<RuleModel, ConfigError>(e),
            },
    {
        let local = match &raw.local {
            Entry::Present(s) => s.clone(),
            _ => return Err(ConfigError::MissingLocal),
        };
        if !is_endpoint_text(local.as_str()) {
            return Err(ConfigError::InvalidLocal);
        }
        let remote = match &raw.remote {
            Entry::Present(s) => s.clone(),
            _ => return Err(ConfigError::MissingRemote),
        };
        if !is_endpoint_text(remote.as_str()) {
            return Err(ConfigError::InvalidRemote);
        }
        let enable_tcp = match &raw.enable_tcp {
            Entry::Missing => true,
            Entry::Present(b) => *b,
            Entry::Malformed => return Err(ConfigError::InvalidEnableTcp),
        };
        let enable_udp = match &raw.enable_udp {
            Entry::Missing => true,
            Entry::Present(b) => *b,
            Entry::Malformed => return Err(ConfigError::InvalidEnableUdp),
        };
        let conn_bufsize: usize = match &raw.conn_bufsize {
            Entry::Missing => DEFAULT_CONN_BUFSIZE,
            Entry::Present(n) => {
                if *n <= 0 || (*n as u64) > (usize::MAX as u64) {
                    return Err(ConfigError::InvalidConnBufsize);
                }
                *n as usize
            },
            Entry::Malformed => return Err(ConfigError::InvalidConnBufsize),
        };
        let allow_nets: Vec<String> = match &raw.allow_nets {
            Entry::Missing => Vec::new(),
            Entry::Present(nets) => match checked_nets(nets) {
                Some(v) => v,
                None => return Err(ConfigError::InvalidAllowNets),
            },
            Entry::Malformed => return Err(ConfigError::InvalidAllowNets),
        };
        let max_connections: i64 = match &raw.max_connections {
            Entry::Missing => UNLIMITED_CONNECTIONS,
            Entry::Present(n) => *n,
            Entry::Malformed => return Err(ConfigError::InvalidMaxConnections),
        };
        let rule = ForwardSessionConfig {
            local,
            remote,
            enable_tcp,
            enable_udp,
            conn_bufsize,
            allow_nets,
            max_connections,
        };
        proof {
            assert(rule@.allow_nets =~= rule_of(raw@).allow_nets);
            lemma_rule_of_wf(raw@);
        }
        Ok(rule)
    }
}

} // verus!
