//! DNS responses as the resolver reads them, and the decision that one
//! response leads to.

use crate::name::{names_equal, same_name};
use vstd::prelude::*;

verus! {

/// An IPv4 address, as its four octets in network order.
#[derive(Clone, Copy, Debug, PartialEq, Eq, Structural)]
pub struct Ipv4Address {
    pub a: u8,
    pub b: u8,
    pub c: u8,
    pub d: u8,
}

impl Ipv4Address {
    pub fn new(a: u8, b: u8, c: u8, d: u8) -> (r: Ipv4Address)
        ensures
            r == (Ipv4Address { a, b, c, d }),
    {
        Ipv4Address { a, b, c, d }
    }

    pub fn octets(&self) -> (r: [u8; 4])
        ensures
            r@ == seq![self.a, self.b, self.c, self.d],
    {
        let r = [self.a, self.b, self.c, self.d];
        assert(r@ =~= seq![self.a, self.b, self.c, self.d]);
        r
    }
}

/// The data of a resource record, tagged by its record type. Kinds the
/// resolver does not interpret are kept as `Other`.
#[derive(Clone, Debug, PartialEq, Eq)]
pub enum RecordData {
    A(Ipv4Address),
    Ns(String),
    Other,
}

/// A resource record: the owner name and its typed data.
#[derive(Clone, Debug, PartialEq, Eq)]
pub struct Record {
    pub owner: String,
    pub data: RecordData,
}

/// A parsed DNS response with its three record sections, in wire order.
#[derive(Clone, Debug, PartialEq, Eq)]
pub struct DnsResponse {
    pub answers: Vec<Record>,
    pub authorities: Vec<Record>,
    pub additionals: Vec<Record>,
}

/// The address that a record gives as an answer for `name`: an A record
/// whose owner is `name`.
pub open spec fn answer_of(r: Record, name: Seq<char>) -> Option<Ipv4Address> {
    match r.data {
        RecordData::A(ip) => if same_name(r.owner@, name) {
            Some(ip)
        } else {
            None
        },
        _ => None,
    }
}

/// The address that a record of the additional section gives: any A record.
pub open spec fn glue_of(r: Record) -> Option<Ipv4Address> {
    match r.data {
        RecordData::A(ip) => Some(ip),
        _ => None,
    }
}

/// The nameserver name that a record of the authority section gives.
pub open spec fn ns_of(r: Record) -> Option<Seq<char>> {
    match r.data {
        RecordData::Ns(n) => Some(n@),
        _ => None,
    }
}

/// The first answer for `name` in `recs`.
pub open spec fn first_answer(recs: Seq<Record>, name: Seq<char>) -> Option<Ipv4Address>
    decreases recs.len(),
{
    if recs.len() == 0 {
        None
    } else if answer_of(recs[0], name) is Some {
        answer_of(recs[0], name)
    } else {
        first_answer(recs.drop_first(), name)
    }
}

/// The first glue address in `recs`.
pub open spec fn first_glue(recs: Seq<Record>) -> Option<Ipv4Address>
    decreases recs.len(),
{
    if recs.len() == 0 {
        None
    } else if glue_of(recs[0]) is Some {
        glue_of(recs[0])
    } else {
        first_glue(recs.drop_first())
    }
}

/// The first nameserver name in `recs`.
pub open spec fn first_ns(recs: Seq<Record>) -> Option<Seq<char>>
    decreases recs.len(),
{
    if recs.len() == 0 {
        None
    } else if ns_of(recs[0]) is Some {
        ns_of(recs[0])
    } else {
        first_ns(recs.drop_first())
    }
}

/// Returns the address of the first A record in `answers` owned by `name`.
pub fn get_answer(answers: &[Record], name: &str) -> (r: Option<Ipv4Address>)
    ensures
        r == first_answer(answers@, name@),
{
    let n = answers.len();
    assert(answers@.subrange(0, n as int) =~= answers@);
    let mut i: usize = 0;
    while i < n
        invariant
            n == answers@.len(),
            i <= n,
            first_answer(answers@, name@) == first_answer(answers@.subrange(i as int, n as int), name@),
        decreases n - i,
    {
        let ghost rest = answers@.subrange(i as int, n as int);
        assert(rest.drop_first() =~= answers@.subrange(i + 1, n as int));
        let rec = &answers[i];
        if let RecordData::A(ip) = &rec.data {
            if names_equal(rec.owner.as_str(), name) {
                return Some(*ip);
            }
        }
        i = i + 1;
    }
    None
}

/// Returns the address of the first A record in `additionals`.
pub fn get_glue(additionals: &[Record]) -> (r: Option<Ipv4Address>)
    ensures
        r == first_glue(additionals@),
{
    let n = additionals.len();
    assert(additionals@.subrange(0, n as int) =~= additionals@);
    let mut i: usize = 0;
    while i < n
        invariant
            n == additionals@.len(),
            i <= n,
            first_glue(additionals@) == first_glue(additionals@.subrange(i as int, n as int)),
        decreases n - i,
    {
        let ghost rest = additionals@.subrange(i as int, n as int);
        assert(rest.drop_first() =~= additionals@.subrange(i + 1, n as int));
        if let RecordData::A(ip) = &additionals[i].data {
            return Some(*ip);
        }
        i = i + 1;
    }
    None
}

/// Returns the nameserver name of the first NS record in `authorities`.
pub fn get_ns(authorities: &[Record]) -> (r: Option<String>)
    ensures
        match r {
            Some(s) => first_ns(authorities@) == Some(s@),
            None => first_ns(authorities@) is None,
        },
{
    let n = authorities.len();
    assert(authorities@.subrange(0, n as int) =~= authorities@);
    let mut i: usize = 0;
    while i < n
        invariant
            n == authorities@.len(),
            i <= n,
            first_ns(authorities@) == first_ns(authorities@.subrange(i as int, n as int)),
        decreases n - i,
    {
        let ghost rest = authorities@.subrange(i as int, n as int);
        assert(rest.drop_first() =~= authorities@.subrange(i + 1, n as int));
        if let RecordData::Ns(ns) = &authorities[i].data {
            return Some(ns.clone());
        }
        i = i + 1;
    }
    None
}

/// What one response tells the resolver to do next, in strict priority
/// order: an answer, then a glue address, then a nameserver name to look up.
#[derive(Clone, Debug, PartialEq, Eq)]
pub enum Decision {
    Answer(Ipv4Address),
    Glue(Ipv4Address),
    Referral(String),
    NoPath,
}

/// The mathematical form of a [`Decision`].
pub enum DecisionView {
    Answer(Ipv4Address),
    Glue(Ipv4Address),
    Referral(Seq<char>),
    NoPath,
}

impl View for Decision {
    type V = DecisionView;

    open spec fn view(&self) -> DecisionView {
        match self {
            Decision::Answer(ip) => DecisionView::Answer(*ip),
            Decision::Glue(ip) => DecisionView::Glue(*ip),
            Decision::Referral(n) => DecisionView::Referral(n@),
            Decision::NoPath => DecisionView::NoPath,
        }
    }
}

/// The decision that `resp` leads to for a query of `name`.
pub open spec fn decision_of(resp: DnsResponse, name: Seq<char>) -> DecisionView {
    match first_answer(resp.answers@, name) {
        Some(ip) => DecisionView::Answer(ip),
        None => match first_glue(resp.additionals@) {
            Some(ip) => DecisionView::Glue(ip),
            None => match first_ns(resp.authorities@) {
                Some(n) => DecisionView::Referral(n),
                None => DecisionView::NoPath,
            },
        },
    }
}

/// Interprets the response to a query of `name`.
pub fn decide(resp: &DnsResponse, name: &str) -> (r: Decision)
    ensures
        r@ == decision_of(*resp, name@),
{
    if let Some(ip) = get_answer(resp.answers.as_slice(), name) {
        Decision::Answer(ip)
    } else if let Some(ip) = get_glue(resp.additionals.as_slice()) {
        Decision::Glue(ip)
    } else if let Some(ns) = get_ns(resp.authorities.as_slice()) {
        Decision::Referral(ns)
    } else {
        Decision::NoPath
    }
}

} // verus!
