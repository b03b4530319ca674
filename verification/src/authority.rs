//! The responder adapter: what the DNS server toolkit asks of an authority,
//! answered from the query name alone.

use crate::address::Ipv4Address;
use crate::answer::{answer_for, synthesize, AnswerRecordSet, AnswerView};
use crate::labels::{extract, subject_labels};
use crate::outcome::{Error, LookupOutcome};
use crate::recover::{recover, recover_spec};
use crate::text::texts;
use crate::toolkit::{asks_for_address, is_address_type, labels_of, name_labels};
use trust_dns_server::proto::rr::{LowerName, RecordType};
use vstd::prelude::*;

verus! {

/// How an authority holds its zone.
#[derive(Clone, Copy, Debug, PartialEq, Eq, Structural)]
pub enum ZoneKind {
    /// The authority owns the zone's records.
    Primary,
    /// The authority replicates the zone from a primary.
    Secondary,
}

/// The response codes that this responder's answers map to.
#[derive(Clone, Copy, Debug, PartialEq, Eq, Structural)]
pub enum ResponseCode {
    /// The query was answered.
    NoError,
    /// The queried name does not exist.
    NXDomain,
    /// The requested operation is not implemented.
    NotImp,
}

/// Why a lookup gave no answer.
#[derive(Clone, Copy, Debug, PartialEq, Eq, Structural)]
pub enum LookupFailure {
    /// The query asked for a record type other than `A`.
    UnsupportedType,
    /// The queried name encodes no address, for the reason given.
    NameNotFound(Error),
}

/// A successful lookup: the answer records, and the additional records that
/// go with them.
#[derive(Debug, Clone, PartialEq, Eq)]
pub struct LookupAnswer {
    pub answers: AnswerRecordSet,
    pub additionals: Option<AnswerRecordSet>,
}

/// What a lookup result holds.
pub open spec fn lookup_view(result: Result<LookupAnswer, LookupFailure>) -> Result<
    AnswerView,
    LookupFailure,
> {
    match result {
        Ok(found) => Ok(found.answers@),
        Err(failure) => Err(failure),
    }
}

/// What a query for `query_name` is answered with by the authority over a
/// root domain of `root_len` labels. A query for anything but an address is
/// turned down whatever the name; otherwise the labels in front of the root
/// domain either encode an address, which is the one record of the answer,
/// or the name is not found, for the reason that address recovery gives.
pub open spec fn resolve_spec(query_name: Seq<Seq<u8>>, root_len: nat, address_type: bool) -> Result<
    AnswerView,
    LookupFailure,
> {
    if !address_type {
        Err(LookupFailure::UnsupportedType)
    } else {
        match recover_spec(subject_labels(query_name, root_len)) {
            LookupOutcome::Resolved(address) => Ok(answer_for(query_name, address)),
            LookupOutcome::Unresolved(reason) => Err(LookupFailure::NameNotFound(reason)),
        }
    }
}

/// The response code that a lookup result is sent with.
pub open spec fn response_code_spec(result: Result<AnswerView, LookupFailure>) -> ResponseCode {
    match result {
        Ok(_) => ResponseCode::NoError,
        Err(_) => ResponseCode::NXDomain,
    }
}

/// Answers a query given as plain values: the labels of the query name and
/// of the root domain, both in the order they are written, and whether the
/// query asks for an `A` record.
pub fn resolve(query_name: Vec<Vec<u8>>, root_domain: &Vec<Vec<u8>>, address_type: bool) -> (result:
    Result<LookupAnswer, LookupFailure>)
    ensures
        lookup_view(result) == resolve_spec(
            texts(query_name@),
            root_domain.len() as nat,
            address_type,
        ),
        result matches Ok(found) ==> found.additionals is None,
{
    if !address_type {
        return Err(LookupFailure::UnsupportedType);
    }
    let subject = extract(&query_name, root_domain);
    match recover(&subject) {
        LookupOutcome::Resolved(address) => Ok(
            LookupAnswer { answers: synthesize(query_name, address), additionals: None },
        ),
        LookupOutcome::Unresolved(reason) => Err(LookupFailure::NameNotFound(reason)),
    }
}

/// The response code that a lookup result is sent with: `NOERROR` with the
/// answer, `NXDOMAIN` for either failure.
pub fn response_code(result: &Result<LookupAnswer, LookupFailure>) -> (code: ResponseCode)
    ensures
        code == response_code_spec(lookup_view(*result)),
{
    match result {
        Ok(_) => ResponseCode::NoError,
        Err(_) => ResponseCode::NXDomain,
    }
}

/// An authority that answers `A` queries under its root domain with the
/// address written in the queried name. It keeps no zone data and no state
/// between queries.
#[derive(Debug, Default, PartialEq, Eq)]
pub struct DynamicAuthority {
    root: LowerName,
}

impl Clone for DynamicAuthority {
    /// An authority over the same root domain.
    fn clone(&self) -> (copy: Self)
        ensures
            copy.root_spec() == self.root_spec(),
    {
        DynamicAuthority { root: self.root.clone() }
    }
}

impl DynamicAuthority {
    /// The root domain that the authority was made for.
    pub closed spec fn root_spec(&self) -> LowerName {
        self.root
    }

    /// The number of labels of the root domain.
    pub open spec fn root_len(&self) -> nat {
        name_labels(self.root_spec()).len()
    }

    /// An authority over `root`.
    pub fn new(root: LowerName) -> (authority: Self)
        ensures
            authority.root_spec() == root,
    {
        DynamicAuthority { root }
    }

    /// The authority holds its zone as a primary.
    pub fn zone_type(&self) -> (kind: ZoneKind)
        ensures
            kind == ZoneKind::Primary,
    {
        ZoneKind::Primary
    }

    /// Zone transfers are never allowed.
    pub fn is_axfr_allowed(&self) -> (allowed: bool)
        ensures
            !allowed,
    {
        false
    }

    /// Dynamic updates are not implemented: every request is refused.
    pub fn update(&self) -> (result: Result<bool, ResponseCode>)
        ensures
            result == Err::<bool, ResponseCode>(ResponseCode::NotImp),
    {
        Err(ResponseCode::NotImp)
    }

    /// The root domain of the zone.
    pub fn origin(&self) -> (root: &LowerName)
        ensures
            *root == self.root_spec(),
    {
        &self.root
    }

    /// Recovers the address that `name` encodes in front of the root domain.
    pub fn parse_ipv4_from_name(&self, name: &LowerName) -> (outcome: LookupOutcome)
        ensures
            outcome == recover_spec(subject_labels(name_labels(*name), self.root_len())),
    {
        let query = labels_of(name);
        let root = labels_of(&self.root);
        let subject = extract(&query, &root);
        recover(&subject)
    }

    /// Answers a query for the records of type `rtype` at `name`.
    pub fn lookup(&self, name: &LowerName, rtype: RecordType) -> (result: Result<
        LookupAnswer,
        LookupFailure,
    >)
        ensures
            lookup_view(result) == resolve_spec(
                name_labels(*name),
                self.root_len(),
                is_address_type(rtype),
            ),
            result matches Ok(found) ==> found.additionals is None,
    {
        let address_type = asks_for_address(rtype);
        let query = labels_of(name);
        let root = labels_of(&self.root);
        resolve(query, &root, address_type)
    }
}

} // verus!
