use wildcard_dns::options::Options;

#[test]
fn options_default_is_empty() {
    let options = Options::default();
    assert_eq!(options.dns_domain, "");
    assert_eq!(options.ns_domain, "");
    assert_eq!(options.host_master_domain, "");
    assert_eq!(options.listen, None);
}

#[test]
fn options_listen_on_port_53_by_default() {
    assert_eq!(Options::default().listen_address(), "0.0.0.0:53");
}

#[test]
fn options_listen_where_configured() {
    let options = Options {
        dns_domain: "example.com".to_string(),
        ns_domain: "ns.example.com".to_string(),
        host_master_domain: "hostmaster.example.com".to_string(),
        listen: Some("127.0.0.1:5353".to_string()),
    };
    assert_eq!(options.listen_address(), "127.0.0.1:5353");
    assert_eq!(options.clone(), options);
}
