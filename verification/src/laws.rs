//! What holds of name resolution on every input.

use crate::address::Ipv4Address;
use crate::authority::{resolve_spec, response_code_spec, LookupFailure, ResponseCode};
use crate::labels::subject_labels;
use crate::octet::{all_digits, decimal_text, decimal_value, is_digit, lemma_decimal_text_denotes, octet_of};
use crate::outcome::{Error, LookupOutcome};
use crate::recover::{
    address_of_parts, forward_address, is_loopback_alias, local_text, localhost_text,
    multi_label_address, quad_of, recover_spec, reverse_address,
};
use crate::text::{
    hyphen_free, hyphen_parts, join_with_hyphens, lemma_parts_extend, lemma_parts_of_join, HYPHEN,
};
use vstd::prelude::*;
use vstd::utf8::{partial_valid_utf8, partial_valid_utf8_extend_ascii_block, valid_utf8};

verus! {

/// Bytes below 128 are valid UTF-8 text.
pub proof fn lemma_ascii_is_text(text: Seq<u8>)
    requires
        forall|i: int| 0 <= i < text.len() ==> #[trigger] text[i] < 128,
    ensures
        valid_utf8(text),
{
    assert(text.subrange(0, 0) =~= Seq::<u8>::empty());
    assert(partial_valid_utf8(text, 0));
    partial_valid_utf8_extend_ascii_block(text, 0, text.len() as int);
    assert(text.subrange(0, text.len() as int) =~= text);
}

/// The text of an octet is made of digits: it is valid text and holds no
/// hyphen.
pub proof fn lemma_octet_text_is_plain(text: Seq<u8>)
    requires
        octet_of(text) is Ok,
    ensures
        valid_utf8(text),
        hyphen_free(text),
{
    assert forall|i: int| 0 <= i < text.len() implies #[trigger] text[i] < 128 && text[i]
        != HYPHEN by {
        assert(is_digit(text[i]));
    }
    lemma_ascii_is_text(text);
}

/// The label in front of the root domain is the only subject label of a
/// query that has one label more than the root domain.
proof fn lemma_single_subject(label: Seq<u8>, root: Seq<Seq<u8>>)
    ensures
        subject_labels(seq![label] + root, root.len()) == seq![label],
{
    let query = seq![label] + root;
    assert(query.take(1) =~= seq![label]);
    assert(seq![label].reverse() =~= seq![label]);
}

/// Four labels in front of the root domain whose texts denote the octets
/// `a`, `b`, `c`, `d` resolve to `a.b.c.d`, by the multi-label strategy.
pub proof fn law_dotted_texts_resolve(
    root: Seq<Seq<u8>>,
    ta: Seq<u8>,
    tb: Seq<u8>,
    tc: Seq<u8>,
    td: Seq<u8>,
    address: Ipv4Address,
)
    requires
        octet_of(ta) == Ok::<u8, Error>(address.a),
        octet_of(tb) == Ok::<u8, Error>(address.b),
        octet_of(tc) == Ok::<u8, Error>(address.c),
        octet_of(td) == Ok::<u8, Error>(address.d),
    ensures
        multi_label_address(subject_labels(seq![ta, tb, tc, td] + root, root.len())) == Ok::<
            Ipv4Address,
            Error,
        >(address),
        recover_spec(subject_labels(seq![ta, tb, tc, td] + root, root.len()))
            == LookupOutcome::Resolved(address),
{
    let query = seq![ta, tb, tc, td] + root;
    let subject = subject_labels(query, root.len());
    assert(query.take(4) =~= seq![ta, tb, tc, td]);
    assert(subject =~= seq![td, tc, tb, ta]);
    assert(subject.reverse() =~= seq![ta, tb, tc, td]);
    lemma_octet_text_is_plain(ta);
    lemma_octet_text_is_plain(tb);
    lemma_octet_text_is_plain(tc);
    lemma_octet_text_is_plain(td);
}

/// For every root domain and all octets, the name `a.b.c.d.` followed by the
/// root domain resolves to `a.b.c.d`, by the multi-label strategy.
pub proof fn law_dotted_quad_resolves(root: Seq<Seq<u8>>, a: u8, b: u8, c: u8, d: u8)
    ensures
        recover_spec(
            subject_labels(
                seq![decimal_text(a), decimal_text(b), decimal_text(c), decimal_text(d)] + root,
                root.len(),
            ),
        ) == LookupOutcome::Resolved(Ipv4Address { a, b, c, d }),
{
    lemma_decimal_text_denotes(a);
    lemma_decimal_text_denotes(b);
    lemma_decimal_text_denotes(c);
    lemma_decimal_text_denotes(d);
    law_dotted_texts_resolve(
        root,
        decimal_text(a),
        decimal_text(b),
        decimal_text(c),
        decimal_text(d),
        Ipv4Address { a, b, c, d },
    );
}

/// For every root domain and all octets, the name `a-b-c-d.` followed by the
/// root domain resolves to `a.b.c.d`.
pub proof fn law_hyphenated_quad_resolves(root: Seq<Seq<u8>>, a: u8, b: u8, c: u8, d: u8)
    ensures
        recover_spec(
            subject_labels(
                seq![
                    join_with_hyphens(
                        seq![decimal_text(a), decimal_text(b), decimal_text(c), decimal_text(d)],
                    ),
                ] + root,
                root.len(),
            ),
        ) == LookupOutcome::Resolved(Ipv4Address { a, b, c, d }),
{
    let parts = seq![decimal_text(a), decimal_text(b), decimal_text(c), decimal_text(d)];
    let label = join_with_hyphens(parts);
    lemma_decimal_text_denotes(a);
    lemma_decimal_text_denotes(b);
    lemma_decimal_text_denotes(c);
    lemma_decimal_text_denotes(d);
    lemma_octet_text_is_plain(decimal_text(a));
    lemma_octet_text_is_plain(decimal_text(b));
    lemma_octet_text_is_plain(decimal_text(c));
    lemma_octet_text_is_plain(decimal_text(d));
    lemma_parts_of_join(parts);
    lemma_joined_text_is_valid(parts);
    lemma_single_subject(label, root);
}

/// Parts that are valid text stay valid text when written out with hyphens
/// between them.
pub proof fn lemma_joined_text_is_valid(parts: Seq<Seq<u8>>)
    requires
        forall|i: int| 0 <= i < parts.len() ==> valid_utf8(#[trigger] parts[i]),
    ensures
        valid_utf8(join_with_hyphens(parts)),
    decreases parts.len(),
{
    if parts.len() >= 2 {
        let front = parts.drop_last();
        assert forall|i: int| 0 <= i < front.len() implies valid_utf8(#[trigger] front[i]) by {
            assert(front[i] == parts[i]);
        }
        lemma_joined_text_is_valid(front);
        lemma_ascii_is_text(seq![HYPHEN]);
        vstd::utf8::valid_utf8_concat(join_with_hyphens(front), seq![HYPHEN]);
        vstd::utf8::valid_utf8_concat(join_with_hyphens(front) + seq![HYPHEN], parts.last());
    } else if parts.len() == 1 {
        assert(valid_utf8(parts[0]));
    }
}

/// For every root domain and all octets, a single label that begins
/// `d-c-b-a`, with or without further hyphen-separated parts behind it,
/// resolves to `a.b.c.d` by the reverse hyphen strategy wherever the forward
/// hyphen strategy, which is tried first, finds no address in the label or
/// finds the same one.
pub proof fn law_reversed_quad_resolves(
    root: Seq<Seq<u8>>,
    a: u8,
    b: u8,
    c: u8,
    d: u8,
    rest: Seq<Seq<u8>>,
)
    requires
        forall|i: int| 0 <= i < rest.len() ==> hyphen_free(#[trigger] rest[i]),
        forall|i: int| 0 <= i < rest.len() ==> valid_utf8(#[trigger] rest[i]),
        ({
            let label = join_with_hyphens(
                seq![decimal_text(d), decimal_text(c), decimal_text(b), decimal_text(a)] + rest,
            );
            forward_address(label) is Err || forward_address(label) == Ok::<Ipv4Address, Error>(
                Ipv4Address { a, b, c, d },
            )
        }),
    ensures
        ({
            let label = join_with_hyphens(
                seq![decimal_text(d), decimal_text(c), decimal_text(b), decimal_text(a)] + rest,
            );
            &&& reverse_address(label) == Ok::<Ipv4Address, Error>(Ipv4Address { a, b, c, d })
            &&& recover_spec(subject_labels(seq![label] + root, root.len()))
                == LookupOutcome::Resolved(Ipv4Address { a, b, c, d })
        }),
{
    let head = seq![decimal_text(d), decimal_text(c), decimal_text(b), decimal_text(a)];
    let parts = head + rest;
    let label = join_with_hyphens(parts);
    lemma_decimal_text_denotes(a);
    lemma_decimal_text_denotes(b);
    lemma_decimal_text_denotes(c);
    lemma_decimal_text_denotes(d);
    lemma_octet_text_is_plain(decimal_text(a));
    lemma_octet_text_is_plain(decimal_text(b));
    lemma_octet_text_is_plain(decimal_text(c));
    lemma_octet_text_is_plain(decimal_text(d));
    assert forall|i: int| 0 <= i < parts.len() implies hyphen_free(#[trigger] parts[i])
        && valid_utf8(parts[i]) by {
        if i >= 4 {
            assert(parts[i] == rest[i - 4]);
        }
    }
    lemma_parts_of_join(parts);
    lemma_joined_text_is_valid(parts);
    lemma_single_subject(label, root);
    let backwards = parts.reverse();
    let n = parts.len() as int;
    assert(backwards[n - 4] == parts[3]);
    assert(backwards[n - 3] == parts[2]);
    assert(backwards[n - 2] == parts[1]);
    assert(backwards[n - 1] == parts[0]);
}

/// For every root domain, `local.` and `localhost.` followed by the root
/// domain resolve to `127.0.0.1`.
pub proof fn law_loopback_aliases_resolve(root: Seq<Seq<u8>>)
    ensures
        recover_spec(subject_labels(seq![local_text()] + root, root.len()))
            == LookupOutcome::Resolved(Ipv4Address::loopback_spec()),
        recover_spec(subject_labels(seq![localhost_text()] + root, root.len()))
            == LookupOutcome::Resolved(Ipv4Address::loopback_spec()),
{
    lemma_alias_is_one_part(local_text());
    lemma_alias_is_one_part(localhost_text());
    lemma_single_subject(local_text(), root);
    lemma_single_subject(localhost_text(), root);
}

/// A loopback alias is valid text without a hyphen, so it is its own single
/// part.
proof fn lemma_alias_is_one_part(label: Seq<u8>)
    requires
        is_loopback_alias(label),
    ensures
        valid_utf8(label),
        hyphen_parts(label) == seq![label],
{
    lemma_ascii_is_text(label);
    lemma_parts_extend(Seq::empty(), label);
    assert(Seq::<u8>::empty() + label =~= label);
    assert(hyphen_parts(Seq::<u8>::empty()) =~= seq![Seq::<u8>::empty()]);
    assert(hyphen_parts(label) =~= seq![label]);
}

/// A name with fewer than four labels in front of the root domain, whose
/// label next to the root domain has fewer than four hyphen-separated parts
/// and is neither `local` nor `localhost`, is unresolved: for want of
/// candidates where that label is valid text, for its encoding where not.
pub proof fn law_too_few_candidates_unresolved(query: Seq<Seq<u8>>, root: Seq<Seq<u8>>)
    requires
        subject_labels(query, root.len()).len() < 4,
        subject_labels(query, root.len()).len() > 0 ==> {
            let nearest = subject_labels(query, root.len())[0];
            hyphen_parts(nearest).len() < 4 && !is_loopback_alias(nearest)
        },
    ensures
        recover_spec(subject_labels(query, root.len())) == LookupOutcome::Unresolved(
            if subject_labels(query, root.len()).len() == 0 || valid_utf8(
                subject_labels(query, root.len())[0],
            ) {
                Error::TooFewLabels
            } else {
                Error::EncodingError
            },
        ),
{
}

/// A digit string whose value exceeds 255 is no octet, and four texts of
/// which one is no octet are no address: the strategy that reads them fails.
pub proof fn law_out_of_range_octet_fails(
    ta: Seq<u8>,
    tb: Seq<u8>,
    tc: Seq<u8>,
    td: Seq<u8>,
    bad: Seq<u8>,
)
    requires
        bad.len() > 0,
        all_digits(bad),
        decimal_value(bad) > 255,
        bad == ta || bad == tb || bad == tc || bad == td,
    ensures
        octet_of(bad) == Err::<u8, Error>(Error::OctetOutOfRange),
        quad_of(ta, tb, tc, td) is Err,
{
}

/// A single label of four hyphen-separated parts of which one is no octet,
/// in front of any root domain, is unresolved: both hyphen strategies fail
/// on it and no later strategy matches.
pub proof fn law_bad_octet_label_unresolved(
    root: Seq<Seq<u8>>,
    ta: Seq<u8>,
    tb: Seq<u8>,
    tc: Seq<u8>,
    td: Seq<u8>,
)
    requires
        hyphen_free(ta) && hyphen_free(tb) && hyphen_free(tc) && hyphen_free(td),
        octet_of(ta) is Err || octet_of(tb) is Err || octet_of(tc) is Err || octet_of(td) is Err,
    ensures
        ({
            let label = join_with_hyphens(seq![ta, tb, tc, td]);
            &&& forward_address(label) is Err
            &&& reverse_address(label) is Err
            &&& recover_spec(subject_labels(seq![label] + root, root.len())) is Unresolved
        }),
{
    let parts = seq![ta, tb, tc, td];
    let label = join_with_hyphens(parts);
    lemma_parts_of_join(parts);
    lemma_single_subject(label, root);
    assert(parts.reverse() =~= seq![td, tc, tb, ta]);
    if is_loopback_alias(label) {
        lemma_alias_is_one_part(label);
    }
}

/// Resolution is a function of the query alone: two queries with the same
/// labels in front of root domains of the same length, asking for the same
/// kind of record, get the same outcome and the same answer.
pub proof fn law_resolution_is_pure(
    first: Seq<Seq<u8>>,
    second: Seq<Seq<u8>>,
    first_root: nat,
    second_root: nat,
    address_type: bool,
)
    requires
        first =~~= second,
        first_root == second_root,
    ensures
        recover_spec(subject_labels(first, first_root)) == recover_spec(
            subject_labels(second, second_root),
        ),
        resolve_spec(first, first_root, address_type) == resolve_spec(
            second,
            second_root,
            address_type,
        ),
{
}

/// A query for any record type but `A` is turned down as unsupported,
/// whatever the name holds, and is answered `NXDOMAIN`.
pub proof fn law_other_types_unsupported(query: Seq<Seq<u8>>, root_len: nat)
    ensures
        resolve_spec(query, root_len, false) == Err::<crate::answer::AnswerView, LookupFailure>(
            LookupFailure::UnsupportedType,
        ),
        response_code_spec(resolve_spec(query, root_len, false)) == ResponseCode::NXDomain,
{
}

} // verus!
