use port_forwarder::config_file::{
    load_rules, parse_documents, raw_rule, refusal, rules_from, rules_of_documents, LoadError,
    MAX_FLOW_OPENERS, MAX_LINE_LENGTH,
};
use port_forwarder::forward_config::{
    ConfigError, Entry, ForwardSessionConfig, RawRule, DEFAULT_CONN_BUFSIZE,
    UNLIMITED_CONNECTIONS,
};
use yaml_rust::{Yaml, YamlLoader};

fn raw(local: &str, remote: &str) -> RawRule {
    RawRule {
        local: Entry::Present(local.to_string()),
        remote: Entry::Present(remote.to_string()),
        enable_tcp: Entry::Missing,
        enable_udp: Entry::Missing,
        conn_bufsize: Entry::Missing,
        allow_nets: Entry::Missing,
        max_connections: Entry::Missing,
    }
}

fn entry(text: &str) -> Yaml {
    YamlLoader::load_from_str(text).unwrap().remove(0)
}

#[test]
fn defaults_fill_missing_fields() {
    let rule = ForwardSessionConfig::from_fields(&raw("0.0.0.0:1234", "127.0.0.1:2233")).unwrap();
    assert_eq!(
        rule,
        ForwardSessionConfig {
            local: "0.0.0.0:1234".to_string(),
            remote: "127.0.0.1:2233".to_string(),
            enable_tcp: true,
            enable_udp: true,
            conn_bufsize: DEFAULT_CONN_BUFSIZE,
            allow_nets: vec![],
            max_connections: UNLIMITED_CONNECTIONS,
        }
    );
    assert_eq!(DEFAULT_CONN_BUFSIZE, 4096);
    assert_eq!(UNLIMITED_CONNECTIONS, -1);
}

#[test]
fn given_fields_are_kept() {
    let mut r = raw("0.0.0.0:1234", "127.0.0.1:2233");
    r.enable_tcp = Entry::Present(false);
    r.enable_udp = Entry::Present(true);
    r.conn_bufsize = Entry::Present(512);
    r.allow_nets = Entry::Present(vec!["10.0.0.0/8".to_string(), "192.168.1.7".to_string()]);
    r.max_connections = Entry::Present(3);
    let rule = ForwardSessionConfig::from_fields(&r).unwrap();
    assert_eq!(
        rule,
        ForwardSessionConfig {
            local: "0.0.0.0:1234".to_string(),
            remote: "127.0.0.1:2233".to_string(),
            enable_tcp: false,
            enable_udp: true,
            conn_bufsize: 512,
            allow_nets: vec!["10.0.0.0/8".to_string(), "192.168.1.7".to_string()],
            max_connections: 3,
        }
    );
}

#[test]
fn missing_local_is_rejected() {
    let mut r = raw("0.0.0.0:1", "127.0.0.1:2");
    r.local = Entry::Missing;
    assert_eq!(ForwardSessionConfig::from_fields(&r), Err(ConfigError::MissingLocal));
    r.local = Entry::Malformed;
    assert_eq!(ForwardSessionConfig::from_fields(&r), Err(ConfigError::MissingLocal));
}

#[test]
fn missing_remote_is_rejected() {
    let mut r = raw("0.0.0.0:1", "127.0.0.1:2");
    r.remote = Entry::Missing;
    assert_eq!(ForwardSessionConfig::from_fields(&r), Err(ConfigError::MissingRemote));
    r.remote = Entry::Malformed;
    assert_eq!(ForwardSessionConfig::from_fields(&r), Err(ConfigError::MissingRemote));
}

#[test]
fn malformed_endpoints_are_rejected() {
    assert_eq!(
        ForwardSessionConfig::from_fields(&raw("999.0.0.0:1", "127.0.0.1:2")),
        Err(ConfigError::InvalidLocal)
    );
    assert_eq!(
        ForwardSessionConfig::from_fields(&raw("0.0.0.0:1", "127.0.0.1")),
        Err(ConfigError::InvalidRemote)
    );
}

#[test]
fn non_boolean_flags_are_rejected() {
    let mut r = raw("0.0.0.0:1", "127.0.0.1:2");
    r.enable_tcp = Entry::Malformed;
    assert_eq!(ForwardSessionConfig::from_fields(&r), Err(ConfigError::InvalidEnableTcp));
    r.enable_tcp = Entry::Present(true);
    r.enable_udp = Entry::Malformed;
    assert_eq!(ForwardSessionConfig::from_fields(&r), Err(ConfigError::InvalidEnableUdp));
}

#[test]
fn buffer_size_must_be_positive() {
    let mut r = raw("0.0.0.0:1", "127.0.0.1:2");
    r.conn_bufsize = Entry::Present(0);
    assert_eq!(ForwardSessionConfig::from_fields(&r), Err(ConfigError::InvalidConnBufsize));
    r.conn_bufsize = Entry::Present(-5);
    assert_eq!(ForwardSessionConfig::from_fields(&r), Err(ConfigError::InvalidConnBufsize));
    r.conn_bufsize = Entry::Malformed;
    assert_eq!(ForwardSessionConfig::from_fields(&r), Err(ConfigError::InvalidConnBufsize));
    r.conn_bufsize = Entry::Present(1);
    assert_eq!(ForwardSessionConfig::from_fields(&r).unwrap().conn_bufsize, 1);
}

#[test]
fn allow_nets_must_be_patterns() {
    let mut r = raw("0.0.0.0:1", "127.0.0.1:2");
    r.allow_nets = Entry::Present(vec!["10.0.0.0/8".to_string(), "10.0.0.0/40".to_string()]);
    assert_eq!(ForwardSessionConfig::from_fields(&r), Err(ConfigError::InvalidAllowNets));
    r.allow_nets = Entry::Malformed;
    assert_eq!(ForwardSessionConfig::from_fields(&r), Err(ConfigError::InvalidAllowNets));
    r.allow_nets = Entry::Present(vec![]);
    assert_eq!(ForwardSessionConfig::from_fields(&r).unwrap().allow_nets, Vec::<String>::new());
}

#[test]
fn max_connections_must_be_an_integer() {
    let mut r = raw("0.0.0.0:1", "127.0.0.1:2");
    r.max_connections = Entry::Malformed;
    assert_eq!(ForwardSessionConfig::from_fields(&r), Err(ConfigError::InvalidMaxConnections));
    r.max_connections = Entry::Present(0);
    assert_eq!(ForwardSessionConfig::from_fields(&r).unwrap().max_connections, 0);
    r.max_connections = Entry::Present(-7);
    assert_eq!(ForwardSessionConfig::from_fields(&r).unwrap().max_connections, -7);
}

#[test]
fn faults_are_reported_in_field_order() {
    let r = RawRule {
        local: Entry::Present("nowhere".to_string()),
        remote: Entry::Missing,
        enable_tcp: Entry::Malformed,
        enable_udp: Entry::Malformed,
        conn_bufsize: Entry::Present(0),
        allow_nets: Entry::Malformed,
        max_connections: Entry::Malformed,
    };
    assert_eq!(ForwardSessionConfig::from_fields(&r), Err(ConfigError::InvalidLocal));
    let r = RawRule { local: Entry::Present("1.1.1.1:1".to_string()), ..r };
    assert_eq!(ForwardSessionConfig::from_fields(&r), Err(ConfigError::MissingRemote));
    let r = RawRule { remote: Entry::Present("1.1.1.1:2".to_string()), ..r };
    assert_eq!(ForwardSessionConfig::from_fields(&r), Err(ConfigError::InvalidEnableTcp));
    let r = RawRule { enable_tcp: Entry::Missing, ..r };
    assert_eq!(ForwardSessionConfig::from_fields(&r), Err(ConfigError::InvalidEnableUdp));
    let r = RawRule { enable_udp: Entry::Missing, ..r };
    assert_eq!(ForwardSessionConfig::from_fields(&r), Err(ConfigError::InvalidConnBufsize));
    let r = RawRule { conn_bufsize: Entry::Missing, ..r };
    assert_eq!(ForwardSessionConfig::from_fields(&r), Err(ConfigError::InvalidAllowNets));
    let r = RawRule { allow_nets: Entry::Missing, ..r };
    assert_eq!(ForwardSessionConfig::from_fields(&r), Err(ConfigError::InvalidMaxConnections));
}

#[test]
fn raw_rule_reads_each_field_of_a_node() {
    let node = entry(
        "local: 0.0.0.0:1234\nremote: 127.0.0.1:2233\nenable_tcp: false\nenable_udp: true\nconn_bufsize: 8192\nallow_nets: [10.0.0.0/8, 127.0.0.1]\nmax_connections: 4\n",
    );
    assert_eq!(
        raw_rule(&node),
        RawRule {
            local: Entry::Present("0.0.0.0:1234".to_string()),
            remote: Entry::Present("127.0.0.1:2233".to_string()),
            enable_tcp: Entry::Present(false),
            enable_udp: Entry::Present(true),
            conn_bufsize: Entry::Present(8192),
            allow_nets: Entry::Present(vec!["10.0.0.0/8".to_string(), "127.0.0.1".to_string()]),
            max_connections: Entry::Present(4),
        }
    );
}

#[test]
fn raw_rule_tells_missing_from_malformed() {
    let node = entry("local: 17\nenable_tcp: maybe\nconn_bufsize: big\nallow_nets: [1, 2]\nmax_connections: [3]\n");
    assert_eq!(
        raw_rule(&node),
        RawRule {
            local: Entry::Malformed,
            remote: Entry::Missing,
            enable_tcp: Entry::Malformed,
            enable_udp: Entry::Missing,
            conn_bufsize: Entry::Malformed,
            allow_nets: Entry::Malformed,
            max_connections: Entry::Malformed,
        }
    );
    let scalar = Yaml::Integer(5);
    assert_eq!(raw_rule(&scalar).local, Entry::Missing);
    assert_eq!(raw_rule(&scalar).allow_nets, Entry::Missing);
    let text_list = entry("allow_nets: 10.0.0.0/8\n");
    assert_eq!(raw_rule(&text_list).allow_nets, Entry::Malformed);
}

#[test]
fn from_builds_a_rule_from_a_node() {
    let node = entry("local: 0.0.0.0:1234\nremote: 127.0.0.1:2233\nenable_udp: false\n");
    let rule = ForwardSessionConfig::from(&node).unwrap();
    assert_eq!(rule.local, "0.0.0.0:1234");
    assert_eq!(rule.remote, "127.0.0.1:2233");
    assert!(rule.enable_tcp);
    assert!(!rule.enable_udp);
    assert_eq!(rule.conn_bufsize, 4096);
    assert_eq!(rule.max_connections, -1);
    assert!(rule.allow_nets.is_empty());
}

#[test]
fn from_rejects_invalid_configuration() {
    assert_eq!(
        ForwardSessionConfig::from(&entry("remote: 127.0.0.1:2233\n")),
        Err(ConfigError::MissingLocal)
    );
    assert_eq!(
        ForwardSessionConfig::from(&entry("local: 0.0.0.0:1234\n")),
        Err(ConfigError::MissingRemote)
    );
    assert_eq!(
        ForwardSessionConfig::from(&entry(
            "local: 0.0.0.0:1234\nremote: 127.0.0.1:2233\nenable_tcp: 7\n"
        )),
        Err(ConfigError::InvalidEnableTcp)
    );
    assert_eq!(
        ForwardSessionConfig::from(&entry(
            "local: 0.0.0.0:1234\nremote: 127.0.0.1:2233\nenable_tcp: \"true\"\n"
        )),
        Err(ConfigError::InvalidEnableTcp)
    );
}

#[test]
fn rules_from_stops_at_the_first_fault() {
    let good = raw("0.0.0.0:1", "127.0.0.1:2");
    let mut bad = raw("0.0.0.0:1", "127.0.0.1:2");
    bad.remote = Entry::Missing;
    let mut worse = raw("0.0.0.0:1", "127.0.0.1:2");
    worse.local = Entry::Missing;
    assert_eq!(
        rules_from(&vec![good.clone(), bad, worse]),
        Err(LoadError::Rule { index: 1, fault: ConfigError::MissingRemote })
    );
    let rules = rules_from(&vec![good.clone(), good]).unwrap();
    assert_eq!(rules.len(), 2);
    assert_eq!(rules_from(&vec![]), Ok(vec![]));
}

#[test]
fn load_rules_reads_the_forwarders_list() {
    let text = "forwarders:\n  - local: 0.0.0.0:1234\n    remote: 127.0.0.1:2233\n    enable_tcp: true\n    enable_udp: false\n  - local: 0.0.0.0:53\n    remote: 8.8.8.8:53\n    enable_tcp: false\n    max_connections: 100\n";
    let rules = load_rules(text).unwrap().unwrap();
    assert_eq!(rules.len(), 2);
    assert_eq!(rules[0].local, "0.0.0.0:1234");
    assert_eq!(rules[0].remote, "127.0.0.1:2233");
    assert!(rules[0].enable_tcp);
    assert!(!rules[0].enable_udp);
    assert_eq!(rules[1].local, "0.0.0.0:53");
    assert_eq!(rules[1].remote, "8.8.8.8:53");
    assert!(!rules[1].enable_tcp);
    assert!(rules[1].enable_udp);
    assert_eq!(rules[1].max_connections, 100);
}

#[test]
fn load_rules_reports_what_is_wrong() {
    assert_eq!(load_rules(""), Ok(None));
    assert_eq!(load_rules("forwarders: [unclosed"), Err(LoadError::NotYaml));
    assert_eq!(parse_documents("forwarders: [unclosed"), Err(LoadError::NotYaml));
    assert_eq!(parse_documents("a: 1\n---\nb: 2\n").unwrap().len(), 2);
    assert_eq!(load_rules("forwarders: 12"), Err(LoadError::ForwardersNotList));
    assert_eq!(load_rules("other: []"), Err(LoadError::ForwardersNotList));
    assert_eq!(load_rules("- a\n- b\n"), Err(LoadError::ForwardersNotList));
    assert_eq!(load_rules("forwarders: []"), Ok(Some(vec![])));
    assert_eq!(
        load_rules("forwarders:\n  - local: 0.0.0.0:1\n    remote: 1.1.1.1:1\n  - local: 0.0.0.0:2\n"),
        Err(LoadError::Rule { index: 1, fault: ConfigError::MissingRemote })
    );
    assert_eq!(
        load_rules("forwarders:\n  - local: 0.0.0.0:1\n    remote: 1.1.1.1:1\n    enable_tcp: 3\n"),
        Err(LoadError::Rule { index: 0, fault: ConfigError::InvalidEnableTcp })
    );
}

#[test]
fn load_rules_reads_only_the_first_document() {
    let text = "forwarders:\n  - local: 0.0.0.0:1\n    remote: 1.1.1.1:1\n---\nforwarders: 5\n";
    let rules = load_rules(text).unwrap().unwrap();
    assert_eq!(rules.len(), 1);
}

#[test]
fn faults_have_messages() {
    assert_eq!(ConfigError::MissingLocal.message(), "missing local");
    assert_eq!(ConfigError::MissingRemote.message(), "missing remote");
    assert_eq!(ConfigError::InvalidLocal.message(), "invalid local");
    assert_eq!(ConfigError::InvalidRemote.message(), "invalid remote");
    assert_eq!(ConfigError::InvalidEnableTcp.message(), "invalid enable_tcp");
    assert_eq!(ConfigError::InvalidEnableUdp.message(), "invalid enable_udp");
    assert_eq!(ConfigError::InvalidConnBufsize.message(), "invalid conn_bufsize");
    assert_eq!(ConfigError::InvalidAllowNets.message(), "invalid allow_nets");
    assert_eq!(ConfigError::InvalidMaxConnections.message(), "invalid max_connections");
}

#[test]
fn rules_of_documents_reads_parsed_documents() {
    assert_eq!(rules_of_documents(&vec![]), Ok(None));
    assert_eq!(
        rules_of_documents(&vec![Yaml::Null]),
        Err(LoadError::ForwardersNotList)
    );
    let docs = YamlLoader::load_from_str(
        "forwarders:\n  - local: 0.0.0.0:1\n    remote: 1.1.1.1:1\n    allow_nets: [10.0.0.0/8]\n",
    )
    .unwrap();
    let rules = rules_of_documents(&docs).unwrap().unwrap();
    assert_eq!(rules.len(), 1);
    assert_eq!(rules[0].allow_nets, vec!["10.0.0.0/8".to_string()]);
    let docs = YamlLoader::load_from_str(
        "forwarders:\n  - local: 0.0.0.0:1\n    remote: 1.1.1.1:1\n    allow_nets: [10.0.0.0/80]\n",
    )
    .unwrap();
    assert_eq!(
        rules_of_documents(&docs),
        Err(LoadError::Rule { index: 0, fault: ConfigError::InvalidAllowNets })
    );
}

#[test]
fn later_duplicate_of_a_key_is_the_one_read() {
    let node = entry("local: 0.0.0.0:1\nremote: 1.1.1.1:1\nlocal: 0.0.0.0:2\n");
    assert_eq!(raw_rule(&node).local, Entry::Present("0.0.0.0:2".to_string()));
}

#[test]
fn tagged_scalar_that_does_not_convert_is_malformed_not_missing() {
    let node = entry("local: 0.0.0.0:1\nremote: 1.1.1.1:1\nenable_tcp: !!bool maybe\n");
    assert_eq!(node["enable_tcp"], Yaml::BadValue);
    assert_eq!(raw_rule(&node).enable_tcp, Entry::Malformed);
    assert_eq!(raw_rule(&node).enable_udp, Entry::Missing);
    assert_eq!(ForwardSessionConfig::from(&node), Err(ConfigError::InvalidEnableTcp));
    let node = entry("local: 0.0.0.0:1\nremote: 1.1.1.1:1\nenable_udp: !!bool 1\n");
    assert_eq!(ForwardSessionConfig::from(&node), Err(ConfigError::InvalidEnableUdp));
    let node = entry("local: 0.0.0.0:1\nremote: 1.1.1.1:1\nconn_bufsize: !!int many\n");
    assert_eq!(ForwardSessionConfig::from(&node), Err(ConfigError::InvalidConnBufsize));
    let node = entry("local: 0.0.0.0:1\nremote: 1.1.1.1:1\nmax_connections: !!int many\n");
    assert_eq!(ForwardSessionConfig::from(&node), Err(ConfigError::InvalidMaxConnections));
    let node = entry("local: !!int x\nremote: 1.1.1.1:1\n");
    assert_eq!(raw_rule(&node).local, Entry::Malformed);
    assert_eq!(ForwardSessionConfig::from(&node), Err(ConfigError::MissingLocal));
    let node = entry("local: 0.0.0.0:1\nremote: 1.1.1.1:1\nenable_tcp: ~\nallow_nets: ~\n");
    assert_eq!(raw_rule(&node).enable_tcp, Entry::Malformed);
    assert_eq!(raw_rule(&node).allow_nets, Entry::Malformed);
}

#[test]
fn field_under_a_key_that_is_no_string_is_missing() {
    let node = entry("1: 0.0.0.0:1\ntrue: x\nremote: 1.1.1.1:1\n");
    assert_eq!(raw_rule(&node).local, Entry::Missing);
    assert_eq!(raw_rule(&node).remote, Entry::Present("1.1.1.1:1".to_string()));
}

#[test]
fn limits_are_the_documented_ones() {
    assert_eq!(MAX_LINE_LENGTH, 100);
    assert_eq!(MAX_FLOW_OPENERS, 30);
}

#[test]
fn long_lines_are_turned_away() {
    let fine = format!("a: {}\nb: c", "x".repeat(MAX_LINE_LENGTH - 3));
    assert_eq!(refusal(&fine), None);
    assert!(parse_documents(&fine).is_ok());
    let long = format!("a: {}\nb: c", "x".repeat(MAX_LINE_LENGTH - 2));
    assert_eq!(refusal(&long), Some(LoadError::LineTooLong));
    assert_eq!(parse_documents(&long), Err(LoadError::LineTooLong));
    assert_eq!(load_rules(&long), Err(LoadError::LineTooLong));
    let last = format!("a: b\n{}", "#".repeat(MAX_LINE_LENGTH + 1));
    assert_eq!(refusal(&last), Some(LoadError::LineTooLong));
    let returns = format!("a: b\r{}", "#".repeat(MAX_LINE_LENGTH - 4));
    assert_eq!(refusal(&returns), Some(LoadError::LineTooLong));
    assert_eq!(refusal(""), None);
    assert_eq!(refusal("\n\n\n"), None);
}

#[test]
fn many_flow_collections_are_turned_away() {
    let fine = "a: []\n".repeat(MAX_FLOW_OPENERS);
    assert_eq!(refusal(&fine), None);
    assert!(parse_documents(&fine).is_ok());
    let mixed = format!("{}{}", "a: []\n".repeat(15), "b: {}\n".repeat(15));
    assert_eq!(refusal(&mixed), None);
    let many = "a: []\n".repeat(MAX_FLOW_OPENERS + 1);
    assert_eq!(refusal(&many), Some(LoadError::TooManyFlowCollections));
    assert_eq!(load_rules(&many), Err(LoadError::TooManyFlowCollections));
    let mixed = format!("{}{}", "a: []\n".repeat(15), "b: {}\n".repeat(16));
    assert_eq!(refusal(&mixed), Some(LoadError::TooManyFlowCollections));
    let braces = "b: {}\n".repeat(MAX_FLOW_OPENERS + 1);
    assert_eq!(refusal(&braces), Some(LoadError::TooManyFlowCollections));
}

#[test]
fn aliases_are_turned_away() {
    assert_eq!(refusal("a: &x 1\nb: *x\n"), Some(LoadError::AliasFound));
    assert_eq!(load_rules("a: &x 1\nb: *x\n"), Err(LoadError::AliasFound));
    assert_eq!(refusal("# all of *these*\n"), Some(LoadError::AliasFound));
    assert_eq!(refusal("a: &x 1\n"), None);
}

#[test]
fn refusals_come_in_a_fixed_order() {
    let all = format!("{}\n{}*", "#".repeat(MAX_LINE_LENGTH + 1), "[".repeat(31));
    assert_eq!(refusal(&all), Some(LoadError::LineTooLong));
    let two = format!("{}*", "[".repeat(31));
    assert_eq!(refusal(&two), Some(LoadError::TooManyFlowCollections));
}

#[test]
fn texts_that_nest_too_deeply_never_reach_the_parser() {
    let dashes = format!("{}a", "- ".repeat(20000));
    assert_eq!(load_rules(&dashes), Err(LoadError::LineTooLong));
    let keys = format!("{}a", "? ".repeat(20000));
    assert_eq!(load_rules(&keys), Err(LoadError::LineTooLong));
    let mut aliases = String::from("- &a0 [x]\n");
    for i in 1..8000 {
        aliases.push_str(&format!("- &a{} [*a{}]\n", i, i - 1));
    }
    assert_eq!(load_rules(&aliases), Err(LoadError::TooManyFlowCollections));
    let mut aliases = String::from("- &a0\n  - x\n");
    for i in 1..8000 {
        aliases.push_str(&format!("- &a{}\n  - *a{}\n", i, i - 1));
    }
    assert_eq!(load_rules(&aliases), Err(LoadError::AliasFound));
    let flow = format!("{}{}", "[".repeat(255), "]".repeat(255));
    assert_eq!(load_rules(&flow), Err(LoadError::LineTooLong));
}

fn depth(node: &Yaml) -> usize {
    match node {
        Yaml::Array(items) => 1 + items.iter().map(depth).max().unwrap_or(0),
        Yaml::Hash(pairs) => {
            1 + pairs.iter().map(|(k, v)| depth(k).max(depth(v))).max().unwrap_or(0)
        }
        _ => 0,
    }
}

#[test]
fn deepest_block_nesting_within_the_limits_is_read() {
    let mut text = String::new();
    for i in 0..(MAX_LINE_LENGTH - 1) {
        text.push_str(&" ".repeat(i));
        text.push_str("a:\n");
        text.push_str(&" ".repeat(i));
        text.push_str("-\n");
    }
    assert_eq!(refusal(&text), None);
    let docs = parse_documents(&text).unwrap();
    assert_eq!(depth(&docs[0]), 2 * (MAX_LINE_LENGTH - 1));
    let dashes = format!("{}a", "- ".repeat(49));
    assert_eq!(refusal(&dashes), None);
    let docs = parse_documents(&dashes).unwrap();
    assert_eq!(depth(&docs[0]), 49);
    let keys = format!("{}a", "? ".repeat(49));
    let docs = parse_documents(&keys).unwrap();
    assert_eq!(depth(&docs[0]), 49);
}

#[test]
fn deepest_flow_nesting_within_the_limits_is_read() {
    let text = format!(
        "{}\n{}\n{}",
        "[a: ".repeat(15),
        "[a: ".repeat(15),
        "]".repeat(MAX_FLOW_OPENERS)
    );
    assert_eq!(refusal(&text), None);
    let docs = parse_documents(&text).unwrap();
    assert_eq!(depth(&docs[0]), 2 * MAX_FLOW_OPENERS);
}

#[test]
fn deep_block_and_flow_nesting_together_is_read() {
    let mut text = String::new();
    for i in 0..80 {
        text.push_str(&" ".repeat(i));
        text.push_str("a:\n");
        text.push_str(&" ".repeat(i));
        text.push_str("-\n");
    }
    text.push_str(&" ".repeat(80));
    text.push_str("a:\n");
    for _ in 0..7 {
        text.push_str(&" ".repeat(81));
        text.push_str(&"[a: ".repeat(4));
        text.push('\n');
    }
    for _ in 0..7 {
        text.push_str(&" ".repeat(81));
        text.push_str(&"]".repeat(4));
        text.push('\n');
    }
    assert_eq!(refusal(&text), None);
    let docs = parse_documents(&text).unwrap();
    assert_eq!(depth(&docs[0]), 2 * 80 + 1 + 2 * 28);
}

#[test]
fn ipv6_endpoints_make_a_rule() {
    let node = entry("local: \"[::]:1234\"\nremote: \"[2001:db8::1]:2233\"\nallow_nets: [\"fe80::/10\"]\n");
    let rule = ForwardSessionConfig::from(&node).unwrap();
    assert_eq!(rule.local, "[::]:1234");
    assert_eq!(rule.remote, "[2001:db8::1]:2233");
    assert_eq!(rule.allow_nets, vec!["fe80::/10".to_string()]);
    assert!(rule.is_valid());
    assert_eq!(
        ForwardSessionConfig::new("[::1]:80", "[localhost]:80", true, true),
        Err(ConfigError::InvalidRemote)
    );
    assert_eq!(
        ForwardSessionConfig::new("::1:80", "[::1]:80", true, true),
        Err(ConfigError::InvalidLocal)
    );
}

#[test]
fn host_names_make_a_rule() {
    let rule = ForwardSessionConfig::new("localhost:8080", "db.example.com:5432", true, false);
    let rule = rule.unwrap();
    assert_eq!(rule.local, "localhost:8080");
    assert_eq!(rule.remote, "db.example.com:5432");
    assert!(rule.is_valid());
    for bad in [
        "localhost", "localhost:", ":80", "local host:80", "-a.example:80", "a-.example:80",
        "a..b:80", "a.b.:80", ".a:80", "a_b:80", "example.123:80", "127.0.0.256:80",
        "localhost:65536", "localhost:80:80", "caf\u{e9}:80",
    ] {
        assert_eq!(
            ForwardSessionConfig::new(bad, "localhost:1", true, true),
            Err(ConfigError::InvalidLocal),
            "{:?}",
            bad
        );
        assert_eq!(
            ForwardSessionConfig::new("localhost:1", bad, true, true),
            Err(ConfigError::InvalidRemote),
            "{:?}",
            bad
        );
    }
}
