use iterdns::message::{decide, get_answer, get_glue, get_ns, Decision, DnsResponse, Ipv4Address, Record, RecordData};
use iterdns::name::{names_equal, normalize_name};

fn a_rec(owner: &str, addr: Ipv4Address) -> Record {
    Record { owner: owner.to_string(), data: RecordData::A(addr) }
}

fn ns_rec(owner: &str, target: &str) -> Record {
    Record { owner: owner.to_string(), data: RecordData::Ns(target.to_string()) }
}

fn other(owner: &str) -> Record {
    Record { owner: owner.to_string(), data: RecordData::Other }
}

#[test]
fn normalize_appends_dot() {
    assert_eq!(normalize_name("example.com"), "example.com.");
    assert_eq!(normalize_name("example.com."), "example.com.");
    assert_eq!(normalize_name("Example.COM"), "Example.COM.");
    assert_eq!(normalize_name(""), ".");
    assert_eq!(normalize_name("."), ".");
}

#[test]
fn names_compare_ignoring_case() {
    assert!(names_equal("example.com.", "EXAMPLE.Com."));
    assert!(names_equal("", ""));
    assert!(!names_equal("example.com.", "example.com"));
    assert!(!names_equal("example.com.", "example.org."));
    assert!(!names_equal("a-b.", "a_b."));
    assert!(!names_equal("[.", "{."));
}

#[test]
fn answer_is_first_matching_a_record() {
    let recs = vec![
        other("example.com."),
        a_rec("other.com.", Ipv4Address::new(1, 1, 1, 1)),
        a_rec("Example.com.", Ipv4Address::new(2, 2, 2, 2)),
        a_rec("example.com.", Ipv4Address::new(3, 3, 3, 3)),
    ];
    assert_eq!(get_answer(&recs, "example.com."), Some(Ipv4Address::new(2, 2, 2, 2)));
    assert_eq!(get_answer(&recs, "missing.com."), None);
    assert_eq!(get_answer(&[], "example.com."), None);
}

#[test]
fn glue_is_first_a_record() {
    let recs = vec![ns_rec("com.", "a."), a_rec("a.", Ipv4Address::new(4, 4, 4, 4)), a_rec("b.", Ipv4Address::new(5, 5, 5, 5))];
    assert_eq!(get_glue(&recs), Some(Ipv4Address::new(4, 4, 4, 4)));
    assert_eq!(get_glue(&[other("x.")]), None);
}

#[test]
fn ns_is_first_ns_record() {
    let recs = vec![a_rec("a.", Ipv4Address::new(4, 4, 4, 4)), ns_rec("com.", "a.gtld."), ns_rec("com.", "b.gtld.")];
    assert_eq!(get_ns(&recs), Some("a.gtld.".to_string()));
    assert_eq!(get_ns(&[]), None);
}

#[test]
fn decision_priority() {
    let glue = a_rec("ns.", Ipv4Address::new(8, 8, 8, 8));
    let ns = ns_rec("com.", "ns.");
    let ans = a_rec("x.", Ipv4Address::new(9, 9, 9, 9));
    let all = DnsResponse { answers: vec![ans.clone()], authorities: vec![ns.clone()], additionals: vec![glue.clone()] };
    assert_eq!(decide(&all, "x."), Decision::Answer(Ipv4Address::new(9, 9, 9, 9)));
    assert_eq!(decide(&all, "y."), Decision::Glue(Ipv4Address::new(8, 8, 8, 8)));
    let referral = DnsResponse { answers: vec![], authorities: vec![ns], additionals: vec![other("ns.")] };
    assert_eq!(decide(&referral, "x."), Decision::Referral("ns.".to_string()));
    let empty = DnsResponse { answers: vec![], authorities: vec![], additionals: vec![] };
    assert_eq!(decide(&empty, "x."), Decision::NoPath);
}

#[test]
fn address_octets() {
    assert_eq!(Ipv4Address::new(198, 41, 0, 4).octets(), [198, 41, 0, 4]);
}
