//! The label extractor: what is left of a query name once the root domain's
//! labels are taken off its tail.

use crate::text::texts;
use vstd::prelude::*;

verus! {

/// The labels of `query` that precede its last `root_len` labels, the one
/// next to the root domain first and the leftmost one last. Empty where the
/// query has no label beyond the root domain's.
pub open spec fn subject_labels(query: Seq<Seq<u8>>, root_len: nat) -> Seq<Seq<u8>> {
    if query.len() <= root_len {
        Seq::empty()
    } else {
        query.take(query.len() - root_len).reverse()
    }
}

/// An owned copy of `bytes`.
pub fn copy_bytes(bytes: &Vec<u8>) -> (copy: Vec<u8>)
    ensures
        copy@ == bytes@,
{
    let mut copy: Vec<u8> = Vec::new();
    let mut i: usize = 0;
    while i < bytes.len()
        invariant
            0 <= i <= bytes.len(),
            copy@ == bytes@.take(i as int),
        decreases bytes.len() - i,
    {
        copy.push(bytes[i]);
        assert(copy@ =~= bytes@.take(i + 1));
        i = i + 1;
    }
    assert(bytes@.take(bytes.len() as int) =~= bytes@);
    copy
}

/// Removes the root domain from the tail of a query name. Both names are
/// given as their labels in the order they are written, leftmost first; only
/// the number of the root domain's labels is used, since routing has matched
/// the suffix already.
pub fn extract(query_name: &Vec<Vec<u8>>, root_domain: &Vec<Vec<u8>>) -> (subject: Vec<Vec<u8>>)
    ensures
        texts(subject@) == subject_labels(texts(query_name@), root_domain.len() as nat),
{
    let mut subject: Vec<Vec<u8>> = Vec::new();
    if query_name.len() <= root_domain.len() {
        assert(texts(subject@) =~= Seq::<Seq<u8>>::empty());
        return subject;
    }
    let kept: usize = query_name.len() - root_domain.len();
    let ghost wanted = texts(query_name@).take(kept as int).reverse();
    let mut i: usize = kept;
    assert(texts(subject@) =~= wanted.take(0));
    while i > 0
        invariant
            0 <= i <= kept <= query_name.len(),
            wanted == texts(query_name@).take(kept as int).reverse(),
            subject.len() == kept - i,
            texts(subject@) == wanted.take(kept - i),
        decreases i,
    {
        i = i - 1;
        let ghost before = texts(subject@);
        let label = copy_bytes(&query_name[i]);
        subject.push(label);
        assert(texts(subject@) =~= before.push(query_name@[i as int]@));
        assert(wanted[kept - i - 1] == query_name@[i as int]@);
        assert(texts(subject@) =~= wanted.take(kept - i));
    }
    assert(wanted.take(kept as int) =~= wanted);
    subject
}

} // verus!
