use geofence::directory::{CountryDirectory, CountryEntry};
use geofence::feed::{feed_url, parse_feed};
use geofence::groups::{data_file_name, rules_file_name, CountryGroup};
use geofence::prefix::{parse_line, Family, NetworkPrefix};
use geofence::resolver::{Country, Resolution, Step};
use geofence::rules::{render_rules, Policy};

fn text_of(ps: &[NetworkPrefix]) -> Vec<String> {
    ps.iter().map(|p| p.to_text()).collect()
}

fn entry(code: &str, v4: &str, v6: &str) -> CountryEntry {
    CountryEntry {
        code: code.to_string(),
        ipv4: parse_feed(v4, Family::V4),
        ipv6: parse_feed(v6, Family::V6),
    }
}

fn testland() -> Vec<Country> {
    vec![Country { code: "xx".to_string(), name: "Testland".to_string() }]
}

#[test]
fn blank_lines_yield_nothing() {
    assert_eq!(parse_line(""), None);
    assert_eq!(parse_line("   "), None);
    assert_eq!(parse_line("\t\r\n"), None);
    assert_eq!(parse_line("\u{a0}\u{3000}"), None);
}

#[test]
fn malformed_lines_yield_nothing() {
    assert_eq!(parse_line("10.0.0.0"), None);
    assert_eq!(parse_line("10.0.0.0/"), None);
    assert_eq!(parse_line("10.0.0.0/abc"), None);
    assert_eq!(parse_line("10.0.0.0/255.0.0.0"), None);
    assert_eq!(parse_line("10.0.0.0/33"), None);
    assert_eq!(parse_line("2001:db8::/129"), None);
    assert_eq!(parse_line("10.0.0.0/8/8"), None);
    assert_eq!(parse_line("not-a-cidr"), None);
    assert_eq!(parse_line("300.1.1.1/8"), None);
    assert_eq!(parse_line("/8"), None);
}

#[test]
fn valid_lines_parse() {
    assert_eq!(parse_line("10.0.0.0/8"), Some(NetworkPrefix::V4 { addr: 0x0a00_0000, len: 8 }));
    assert_eq!(parse_line("  192.168.1.0/24 \r"), Some(NetworkPrefix::V4 { addr: 0xc0a8_0100, len: 24 }));
    assert_eq!(
        parse_line("2001:db8::/32"),
        Some(NetworkPrefix::V6 { addr: 0x2001_0db8_u128 << 96, len: 32 })
    );
    // bits beyond the prefix length pass through
    assert_eq!(parse_line("10.1.2.3/8"), Some(NetworkPrefix::V4 { addr: 0x0a01_0203, len: 8 }));
    assert_eq!(parse_line("0.0.0.0/0"), Some(NetworkPrefix::V4 { addr: 0, len: 0 }));
    assert_eq!(parse_line("::/128"), Some(NetworkPrefix::V6 { addr: 0, len: 128 }));
}

#[test]
fn canonical_text_round_trips() {
    for s in ["10.0.0.0/8", "192.168.1.0/24", "1.2.3.4/32", "0.0.0.0/0", "2001:db8::/32", "::/0", "fe80::1/128"] {
        let p = parse_line(s).unwrap();
        assert_eq!(p.to_text(), s);
    }
}

#[test]
fn prefix_accessors() {
    let p = parse_line("2001:db8::/48").unwrap();
    assert_eq!(p.family(), Family::V6);
    assert_eq!(p.prefix_len(), 48);
    let q = NetworkPrefix::V4 { addr: 0x0a00_0000, len: 8 };
    assert_eq!(q.to_text(), "10.0.0.0/8");
}

#[test]
fn feed_parsing_skips_noise_and_keeps_order() {
    let v4 = parse_feed("10.0.0.0/8\n\n192.168.1.0/24\nnot-a-cidr\n", Family::V4);
    assert_eq!(text_of(&v4), vec!["10.0.0.0/8", "192.168.1.0/24"]);
    let dup = parse_feed("1.0.0.0/8\r\n1.0.0.0/8\r\n2001:db8::/32\n2.0.0.0/8", Family::V4);
    assert_eq!(text_of(&dup), vec!["1.0.0.0/8", "1.0.0.0/8", "2.0.0.0/8"]);
    let v6 = parse_feed("2001:db8::/32\n10.0.0.0/8\n", Family::V6);
    assert_eq!(text_of(&v6), vec!["2001:db8::/32"]);
    assert!(parse_feed("", Family::V4).is_empty());
    assert!(parse_feed("\n\n\n", Family::V6).is_empty());
}

#[test]
fn feed_addresses() {
    assert_eq!(
        feed_url(Family::V4, "xx"),
        "https://www.ipdeny.com/ipblocks/data/aggregated/xx-aggregated.zone"
    );
    assert_eq!(
        feed_url(Family::V6, "br"),
        "https://www.ipdeny.com/ipv6/ipaddresses/aggregated/br-aggregated.zone"
    );
}

#[test]
fn file_names() {
    assert_eq!(CountryGroup::Africa.name(), "african_union");
    assert_eq!(CountryGroup::G20.name(), "g20");
    assert_eq!(Policy::Allow.name(), "allow");
    assert_eq!(data_file_name(CountryGroup::Brics), "brics_ip_map.json");
    assert_eq!(rules_file_name(CountryGroup::Nato, Policy::Block), "nato_block.nft");
    assert_eq!(rules_file_name(CountryGroup::Eu, Policy::Allow), "eu_allow.nft");
}

#[test]
fn directory_insert_and_lookup() {
    let mut d = CountryDirectory::new();
    assert_eq!(d.len(), 0);
    assert!(d.get("aa").is_none());
    d.insert(entry("aa", "1.0.0.0/8\n", ""));
    d.insert(entry("bb", "2.0.0.0/8\n", "2001:db8::/32\n"));
    assert_eq!(d.len(), 2);
    assert_eq!(d.find("bb"), Some(1));
    assert_eq!(text_of(&d.get("bb").unwrap().ipv6), vec!["2001:db8::/32"]);
    // same code: replaced where it stands
    d.insert(entry("aa", "3.0.0.0/8\n", ""));
    assert_eq!(d.len(), 2);
    assert_eq!(d.entry(0).code, "aa");
    assert_eq!(text_of(&d.entry(0).ipv4), vec!["3.0.0.0/8"]);
    assert_eq!(text_of(&d.prefixes(Family::V4)), vec!["3.0.0.0/8", "2.0.0.0/8"]);
}

const BLOCK_XX: &str = "table inet filter {
  set country_ipv4 { type ipv4_addr; flags interval; elements = {
    10.0.0.0/8,
    192.168.1.0/24,
  } }
  set country_ipv6 { type ipv6_addr; flags interval; elements = {
    2001:db8::/32,
  } }
  chain input {
    type filter hook input priority 0;
    ip saddr @country_ipv4 drop;
    ip6 saddr @country_ipv6 drop;
    accept;
  }
}
";

#[test]
fn end_to_end_testland() {
    let mut r = Resolution::new(testland());
    match r.next_step() {
        Step::Fetch(u) => assert_eq!(u, "https://www.ipdeny.com/ipblocks/data/aggregated/xx-aggregated.zone"),
        _ => panic!("expected a fetch"),
    }
    r.on_body("10.0.0.0/8\n\n192.168.1.0/24\nnot-a-cidr\n");
    match r.next_step() {
        Step::Fetch(u) => assert_eq!(u, "https://www.ipdeny.com/ipv6/ipaddresses/aggregated/xx-aggregated.zone"),
        _ => panic!("expected a fetch"),
    }
    r.on_body("2001:db8::/32\n");
    assert!(matches!(r.next_step(), Step::Finished));
    let d = r.finish().unwrap();
    assert_eq!(d.len(), 1);
    let e = d.get("xx").unwrap();
    assert_eq!(text_of(&e.ipv4), vec!["10.0.0.0/8", "192.168.1.0/24"]);
    assert_eq!(text_of(&e.ipv6), vec!["2001:db8::/32"]);
    assert_eq!(render_rules(&d, Policy::Block), BLOCK_XX);
}

#[test]
fn fetch_failure_ends_the_run() {
    let mut r = Resolution::new(vec![
        Country { code: "aa".to_string(), name: "A".to_string() },
        Country { code: "xx".to_string(), name: "Testland".to_string() },
    ]);
    r.on_body("1.0.0.0/8\n");
    r.on_body("");
    r.on_failure();
    match r.next_step() {
        Step::Failed(u) => assert_eq!(u, "https://www.ipdeny.com/ipblocks/data/aggregated/xx-aggregated.zone"),
        _ => panic!("expected the failure"),
    }
    assert!(r.finish().is_none());
}

#[test]
fn empty_group_finishes_at_once() {
    let r = Resolution::new(Vec::new());
    assert!(matches!(r.next_step(), Step::Finished));
    let d = r.finish().unwrap();
    assert_eq!(d.len(), 0);
}

#[test]
fn unfinished_run_yields_no_directory() {
    let mut r = Resolution::new(testland());
    r.on_body("10.0.0.0/8\n");
    assert!(r.finish().is_none());
}

#[test]
fn allow_policy_rule_order() {
    let mut d = CountryDirectory::new();
    d.insert(entry("xx", "10.0.0.0/8\n", ""));
    let text = render_rules(&d, Policy::Allow);
    assert!(text.ends_with(
        "  chain input {\n    type filter hook input priority 0;\n    ip saddr @country_ipv4 accept;\n    ip6 saddr @country_ipv6 accept;\n    drop;\n  }\n}\n"
    ));
    let empty = render_rules(&CountryDirectory::new(), Policy::Block);
    assert_eq!(
        empty,
        "table inet filter {\n  set country_ipv4 { type ipv4_addr; flags interval; elements = {\n  } }\n  set country_ipv6 { type ipv6_addr; flags interval; elements = {\n  } }\n  chain input {\n    type filter hook input priority 0;\n    ip saddr @country_ipv4 drop;\n    ip6 saddr @country_ipv6 drop;\n    accept;\n  }\n}\n"
    );
}

#[test]
fn sets_hold_every_prefix_with_duplicates() {
    let mut d = CountryDirectory::new();
    d.insert(entry("aa", "1.0.0.0/8\n5.0.0.0/8\n", "2001:db8::/32\n"));
    d.insert(entry("bb", "1.0.0.0/8\n6.0.0.0/8\n", "2001:db8::/32\n"));
    let text = render_rules(&d, Policy::Block);
    assert!(text.contains(
        "elements = {\n    1.0.0.0/8,\n    5.0.0.0/8,\n    1.0.0.0/8,\n    6.0.0.0/8,\n  } }\n"
    ));
    assert!(text.contains("elements = {\n    2001:db8::/32,\n    2001:db8::/32,\n  } }\n"));
}

#[test]
fn rendering_is_reproducible() {
    let make = || {
        let mut r = Resolution::new(testland());
        r.on_body("10.0.0.0/8\n\n192.168.1.0/24\nnot-a-cidr\n");
        r.on_body("2001:db8::/32\n");
        r.finish().unwrap()
    };
    let a = render_rules(&make(), Policy::Block);
    let b = render_rules(&make(), Policy::Block);
    assert_eq!(a, b);
}
