//! The boundary with the DNS server toolkit. Its names and record types are
//! carried through as they are; the functions below are the only places
//! where one of them is read.

use crate::text::texts;
use trust_dns_server::proto::rr::{LowerName, Name, RecordType};
use vstd::prelude::*;

verus! {

/// `trust_dns_proto::rr::LowerName`: a domain name in lower case. Nothing is
/// claimed of what is inside; it is read through `labels_of` only.
#[verifier::external_type_specification]
#[verifier::external_body]
pub struct ExLowerName(LowerName);

/// `trust_dns_proto::rr::RecordType`: the type of a resource record. Nothing
/// is claimed of its variants; it is read through `asks_for_address` only.
#[verifier::external_type_specification]
#[verifier::external_body]
pub struct ExRecordType(RecordType);

/// The labels of a toolkit name in the order they are written, leftmost
/// first, without the empty root label.
pub uninterp spec fn name_labels(name: LowerName) -> Seq<Seq<u8>>;

/// Whether a toolkit record type is `A`, the IPv4 address record.
pub uninterp spec fn is_address_type(rtype: RecordType) -> bool;

/// `Name::iter`, on the name inside a `LowerName`: the iterator hands out the
/// labels as byte slices, from the first stored label to the last, and the
/// name stores them as they are written. Each one is copied into a vector.
#[verifier::external_body]
pub(crate) fn labels_of(name: &LowerName) -> (labels: Vec<Vec<u8>>)
    ensures
        texts(labels@) == name_labels(*name),
{
    let inner: &Name = std::borrow::Borrow::borrow(name);
    inner.iter().map(|label| label.to_vec()).collect()
}

/// `LowerName`'s derived `Clone`: the copy equals the name it was made
/// from, field by field.
pub assume_specification[ <LowerName as Clone>::clone ](name: &LowerName) -> (copy: LowerName)
    ensures
        copy == *name,
;

/// A match on `RecordType`: tells the variant `A` from every other record
/// type, which is what `is_address_type` stands for.
#[verifier::external_body]
pub(crate) fn asks_for_address(rtype: RecordType) -> (yes: bool)
    ensures
        yes == is_address_type(rtype),
{
    match rtype {
        RecordType::A => true,
        _ => false,
    }
}

} // verus!
