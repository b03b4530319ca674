//! The answer synthesizer: the `A` record set that binds a query name to the
//! address recovered from it.

use crate::address::Ipv4Address;
use crate::text::texts;
use vstd::prelude::*;

verus! {

/// The time to live of every synthesised record, in seconds.
pub const ANSWER_TTL: u32 = 300;

/// A set of `A` records under one owner name: each entry of `addresses` is
/// the RDATA of one record.
#[derive(Debug, Clone, PartialEq, Eq)]
pub struct AnswerRecordSet {
    /// The owner name, as its labels in the order they are written.
    pub name: Vec<Vec<u8>>,
    /// The time to live of the records, in seconds.
    pub ttl: u32,
    /// The address of each record.
    pub addresses: Vec<Ipv4Address>,
}

/// What an `AnswerRecordSet` holds.
pub struct AnswerView {
    pub name: Seq<Seq<u8>>,
    pub ttl: u32,
    pub addresses: Seq<Ipv4Address>,
}

impl View for AnswerRecordSet {
    type V = AnswerView;

    open spec fn view(&self) -> AnswerView {
        AnswerView { name: texts(self.name@), ttl: self.ttl, addresses: self.addresses@ }
    }
}

/// The answer to a query for `query_name` that resolved to `address`: one
/// record, owned by the query name as it was asked, living 300 seconds.
pub open spec fn answer_for(query_name: Seq<Seq<u8>>, address: Ipv4Address) -> AnswerView {
    AnswerView { name: query_name, ttl: ANSWER_TTL, addresses: seq![address] }
}

/// Builds the record set that answers `query_name` with `address`.
pub fn synthesize(query_name: Vec<Vec<u8>>, address: Ipv4Address) -> (set: AnswerRecordSet)
    ensures
        set@ == answer_for(texts(query_name@), address),
{
    let mut addresses: Vec<Ipv4Address> = Vec::new();
    addresses.push(address);
    assert(addresses@ =~= seq![address]);
    AnswerRecordSet { name: query_name, ttl: ANSWER_TTL, addresses }
}

} // verus!
