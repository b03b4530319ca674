//! The address recoverer: an ordered set of strategies that read an IPv4
//! address out of the labels left in front of the root domain.

use crate::address::Ipv4Address;
use crate::octet::{octet_of, parse_octet};
use crate::outcome::{Error, LookupOutcome};
use crate::text::{decodes_as_utf8, hyphen_parts, same_bytes, split_on_hyphen, texts};
use vstd::prelude::*;
use vstd::utf8::valid_utf8;

verus! {

/// The address whose octets the four texts denote, in this order. The first
/// text that is no octet decides the error.
pub open spec fn quad_of(ta: Seq<u8>, tb: Seq<u8>, tc: Seq<u8>, td: Seq<u8>) -> Result<
    Ipv4Address,
    Error,
> {
    match octet_of(ta) {
        Err(e) => Err(e),
        Ok(a) => match octet_of(tb) {
            Err(e) => Err(e),
            Ok(b) => match octet_of(tc) {
                Err(e) => Err(e),
                Ok(c) => match octet_of(td) {
                    Err(e) => Err(e),
                    Ok(d) => Ok(Ipv4Address { a, b, c, d }),
                },
            },
        },
    }
}

/// The address that the last four of `parts` denote, read left to right.
pub open spec fn address_of_parts(parts: Seq<Seq<u8>>) -> Result<Ipv4Address, Error> {
    if parts.len() < 4 {
        Err(Error::TooFewLabels)
    } else {
        let n = parts.len() as int;
        quad_of(parts[n - 4], parts[n - 3], parts[n - 2], parts[n - 1])
    }
}

/// Whether the four subject labels next to the root domain are all valid
/// UTF-8 text.
pub open spec fn nearest_four_are_text(subject: Seq<Seq<u8>>) -> bool
    recommends
        subject.len() >= 4,
{
    valid_utf8(subject[0]) && valid_utf8(subject[1]) && valid_utf8(subject[2]) && valid_utf8(
        subject[3],
    )
}

/// The multi-label strategy: the four labels next to the root domain, read
/// from the outermost of them inwards, are the four octets (`a.b.c.d` in
/// front of the root domain).
pub open spec fn multi_label_address(subject: Seq<Seq<u8>>) -> Result<Ipv4Address, Error> {
    if subject.len() < 4 {
        Err(Error::TooFewLabels)
    } else if !nearest_four_are_text(subject) {
        Err(Error::EncodingError)
    } else {
        address_of_parts(subject.reverse())
    }
}

/// The forward hyphen strategy: the last four hyphen-separated parts of the
/// label, read left to right (`x-a-b-c-d`).
pub open spec fn forward_address(label: Seq<u8>) -> Result<Ipv4Address, Error> {
    address_of_parts(hyphen_parts(label))
}

/// The reverse hyphen strategy: the first four hyphen-separated parts of the
/// label, read right to left (`d-c-b-a-x`).
pub open spec fn reverse_address(label: Seq<u8>) -> Result<Ipv4Address, Error> {
    address_of_parts(hyphen_parts(label).reverse())
}

/// The text `local`.
pub open spec fn local_text() -> Seq<u8> {
    seq![108u8, 111u8, 99u8, 97u8, 108u8]
}

/// The text `localhost`.
pub open spec fn localhost_text() -> Seq<u8> {
    seq![108u8, 111u8, 99u8, 97u8, 108u8, 104u8, 111u8, 115u8, 116u8]
}

/// The loopback alias strategy: the label is `local` or `localhost`.
pub open spec fn is_loopback_alias(label: Seq<u8>) -> bool {
    label == local_text() || label == localhost_text()
}

/// The reason reported when no strategy matched, of subject labels that are
/// valid text: too few labels where the multi-label strategy could not be
/// tried; otherwise the octet that stopped the last strategy which got as
/// far as reading octets, that is the reverse hyphen strategy where the
/// label has four parts, and the multi-label strategy where it has not.
pub open spec fn failure_reason(subject: Seq<Seq<u8>>) -> Error
    recommends
        subject.len() >= 1,
{
    if subject.len() < 4 {
        Error::TooFewLabels
    } else {
        match reverse_address(subject[0]) {
            Err(Error::NonNumericOctet) => Error::NonNumericOctet,
            Err(Error::OctetOutOfRange) => Error::OctetOutOfRange,
            _ => match multi_label_address(subject) {
                Err(e) => e,
                Ok(_) => Error::TooFewLabels,
            },
        }
    }
}

/// The outcome of address recovery on the subject labels, the label next to
/// the root domain first. The strategies are tried in a fixed order and the
/// first that yields an address wins: multi-label, forward hyphen, reverse
/// hyphen, loopback alias. A label that must be read and is not valid text
/// ends the recovery at once.
pub open spec fn recover_spec(subject: Seq<Seq<u8>>) -> LookupOutcome {
    if subject.len() == 0 {
        LookupOutcome::Unresolved(Error::TooFewLabels)
    } else {
        let nearest = subject[0];
        match multi_label_address(subject) {
            Ok(address) => LookupOutcome::Resolved(address),
            Err(Error::EncodingError) => LookupOutcome::Unresolved(Error::EncodingError),
            Err(_) => if !valid_utf8(nearest) {
                LookupOutcome::Unresolved(Error::EncodingError)
            } else {
                match forward_address(nearest) {
                    Ok(address) => LookupOutcome::Resolved(address),
                    Err(_) => match reverse_address(nearest) {
                        Ok(address) => LookupOutcome::Resolved(address),
                        Err(_) => if is_loopback_alias(nearest) {
                            LookupOutcome::Resolved(Ipv4Address::loopback_spec())
                        } else {
                            LookupOutcome::Unresolved(failure_reason(subject))
                        },
                    },
                }
            },
        }
    }
}

/// Parses four octets into an address.
pub fn parse_quad(ta: &Vec<u8>, tb: &Vec<u8>, tc: &Vec<u8>, td: &Vec<u8>) -> (r: Result<
    Ipv4Address,
    Error,
>)
    ensures
        r == quad_of(ta@, tb@, tc@, td@),
{
    let a = match parse_octet(ta) {
        Ok(a) => a,
        Err(e) => {
            return Err(e);
        },
    };
    let b = match parse_octet(tb) {
        Ok(b) => b,
        Err(e) => {
            return Err(e);
        },
    };
    let c = match parse_octet(tc) {
        Ok(c) => c,
        Err(e) => {
            return Err(e);
        },
    };
    let d = match parse_octet(td) {
        Ok(d) => d,
        Err(e) => {
            return Err(e);
        },
    };
    Ok(Ipv4Address::new(a, b, c, d))
}

/// Reads an address from the last four of `parts`, left to right.
pub fn parse_ipv4_by_split(parts: &Vec<Vec<u8>>) -> (r: Result<Ipv4Address, Error>)
    ensures
        r == address_of_parts(texts(parts@)),
{
    let n = parts.len();
    if n < 4 {
        return Err(Error::TooFewLabels);
    }
    parse_quad(&parts[n - 4], &parts[n - 3], &parts[n - 2], &parts[n - 1])
}

/// Reads an address from the first four of `parts`, right to left: what
/// `parse_ipv4_by_split` reads from the parts in reverse order.
pub fn parse_ipv4_by_reversed_split(parts: &Vec<Vec<u8>>) -> (r: Result<Ipv4Address, Error>)
    ensures
        r == address_of_parts(texts(parts@).reverse()),
{
    let n = parts.len();
    if n < 4 {
        return Err(Error::TooFewLabels);
    }
    parse_quad(&parts[3], &parts[2], &parts[1], &parts[0])
}

/// Whether `label` is `local` or `localhost`.
pub fn names_loopback(label: &Vec<u8>) -> (yes: bool)
    ensures
        yes == is_loopback_alias(label@),
{
    let local: [u8; 5] = [108, 111, 99, 97, 108];
    let localhost: [u8; 9] = [108, 111, 99, 97, 108, 104, 111, 115, 116];
    assert(local@ =~= local_text());
    assert(localhost@ =~= localhost_text());
    same_bytes(label, local.as_slice()) || same_bytes(label, localhost.as_slice())
}

/// Recovers the address that the subject labels encode. The labels are
/// given with the one next to the root domain first.
pub fn recover(subject_labels: &Vec<Vec<u8>>) -> (outcome: LookupOutcome)
    ensures
        outcome == recover_spec(texts(subject_labels@)),
{
    let n = subject_labels.len();
    if n == 0 {
        return LookupOutcome::Unresolved(Error::TooFewLabels);
    }
    let ghost subject = texts(subject_labels@);
    let nearest = &subject_labels[0];
    let mut reason = Error::TooFewLabels;
    if n >= 4 {
        let all_text = decodes_as_utf8(&subject_labels[3]) && decodes_as_utf8(&subject_labels[2])
            && decodes_as_utf8(&subject_labels[1]) && decodes_as_utf8(nearest);
        if !all_text {
            return LookupOutcome::Unresolved(Error::EncodingError);
        }
        match parse_ipv4_by_reversed_split(subject_labels) {
            Ok(address) => {
                return LookupOutcome::Resolved(address);
            },
            Err(e) => {
                reason = e;
            },
        }
    } else if !decodes_as_utf8(nearest) {
        return LookupOutcome::Unresolved(Error::EncodingError);
    }
    let parts = split_on_hyphen(nearest);
    if let Ok(address) = parse_ipv4_by_split(&parts) {
        return LookupOutcome::Resolved(address);
    }
    match parse_ipv4_by_reversed_split(&parts) {
        Ok(address) => {
            return LookupOutcome::Resolved(address);
        },
        Err(e) => {
            if n >= 4 && parts.len() >= 4 {
                reason = e;
            }
        },
    }
    if names_loopback(nearest) {
        return LookupOutcome::Resolved(Ipv4Address::loopback());
    }
    LookupOutcome::Unresolved(reason)
}

} // verus!
