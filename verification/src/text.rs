//! Labels as byte strings: validity as text, and splitting on hyphens.

use vstd::prelude::*;
use vstd::utf8::valid_utf8;

verus! {

/// The byte `-`, which separates the octets inside a single label.
pub const HYPHEN: u8 = 45;

/// The byte strings that a vector of owned byte strings holds, in order.
pub open spec fn texts(items: Seq<Vec<u8>>) -> Seq<Seq<u8>> {
    items.map_values(|item: Vec<u8>| item@)
}

/// `core::str::from_utf8`: it succeeds on exactly the byte strings that are
/// well-formed UTF-8, which is what the contract reports.
#[verifier::external_body]
pub(crate) fn decodes_as_utf8(bytes: &Vec<u8>) -> (ok: bool)
    ensures
        ok == valid_utf8(bytes@),
{
    core::str::from_utf8(bytes.as_slice()).is_ok()
}

/// Whether `a` holds exactly the bytes of `b`.
pub fn same_bytes(a: &Vec<u8>, b: &[u8]) -> (same: bool)
    ensures
        same == (a@ == b@),
{
    if a.len() != b.len() {
        return false;
    }
    let mut i: usize = 0;
    while i < a.len()
        invariant
            a.len() == b.len(),
            0 <= i <= a.len(),
            a@.take(i as int) == b@.take(i as int),
        decreases a.len() - i,
    {
        if a[i] != b[i] {
            return false;
        }
        assert(a@.take(i + 1) =~= a@.take(i as int).push(a@[i as int]));
        assert(b@.take(i + 1) =~= b@.take(i as int).push(b@[i as int]));
        i = i + 1;
    }
    assert(a@.take(a.len() as int) =~= a@);
    assert(b@.take(b.len() as int) =~= b@);
    true
}

/// The parts of `text` between its hyphens, left to right. A text without a
/// hyphen is its own single part; a hyphen at either end, or two in a row,
/// give an empty part.
pub open spec fn hyphen_parts(text: Seq<u8>) -> Seq<Seq<u8>>
    decreases text.len(),
{
    if text.len() == 0 {
        seq![Seq::empty()]
    } else {
        let before = hyphen_parts(text.drop_last());
        if text.last() == HYPHEN {
            before.push(Seq::empty())
        } else {
            before.update(before.len() - 1, before.last().push(text.last()))
        }
    }
}

/// The parts written out in order with one hyphen between neighbours.
pub open spec fn join_with_hyphens(parts: Seq<Seq<u8>>) -> Seq<u8>
    decreases parts.len(),
{
    if parts.len() == 0 {
        Seq::empty()
    } else if parts.len() == 1 {
        parts[0]
    } else {
        join_with_hyphens(parts.drop_last()) + seq![HYPHEN] + parts.last()
    }
}

/// Whether no byte of `text` is a hyphen.
pub open spec fn hyphen_free(text: Seq<u8>) -> bool {
    forall|i: int| 0 <= i < text.len() ==> #[trigger] text[i] != HYPHEN
}

/// Every text has at least one part.
pub proof fn lemma_parts_nonempty(text: Seq<u8>)
    ensures
        hyphen_parts(text).len() >= 1,
    decreases text.len(),
{
    if text.len() > 0 {
        lemma_parts_nonempty(text.drop_last());
    }
}

/// Appending hyphen-free bytes to a text only lengthens its last part.
pub proof fn lemma_parts_extend(text: Seq<u8>, tail: Seq<u8>)
    requires
        hyphen_free(tail),
    ensures
        hyphen_parts(text).len() >= 1,
        hyphen_parts(text + tail) == hyphen_parts(text).update(
            hyphen_parts(text).len() - 1,
            hyphen_parts(text).last() + tail,
        ),
    decreases tail.len(),
{
    lemma_parts_nonempty(text);
    let parts = hyphen_parts(text);
    if tail.len() == 0 {
        assert(text + tail =~= text);
        assert(parts.last() + tail =~= parts.last());
        assert(parts.update(parts.len() - 1, parts.last()) =~= parts);
    } else {
        let shorter = tail.drop_last();
        assert(hyphen_free(shorter)) by {
            assert forall|i: int| 0 <= i < shorter.len() implies #[trigger] shorter[i]
                != HYPHEN by {
                assert(shorter[i] == tail[i]);
            }
        }
        lemma_parts_extend(text, shorter);
        let whole = text + tail;
        assert(whole.drop_last() =~= text + shorter);
        assert(whole.last() == tail.last());
        assert(tail.last() != HYPHEN);
        assert((parts.last() + shorter).push(tail.last()) =~= parts.last() + tail);
        assert(hyphen_parts(whole) =~= parts.update(parts.len() - 1, parts.last() + tail));
    }
}

/// Splitting undoes joining: hyphen-free parts written out with hyphens
/// between them split back into the same parts.
pub proof fn lemma_parts_of_join(parts: Seq<Seq<u8>>)
    requires
        parts.len() >= 1,
        forall|i: int| 0 <= i < parts.len() ==> hyphen_free(#[trigger] parts[i]),
    ensures
        hyphen_parts(join_with_hyphens(parts)) == parts,
    decreases parts.len(),
{
    if parts.len() == 1 {
        lemma_parts_extend(Seq::empty(), parts[0]);
        assert(Seq::<u8>::empty() + parts[0] =~= parts[0]);
        assert(hyphen_parts(Seq::<u8>::empty()) =~= seq![Seq::<u8>::empty()]);
        assert(hyphen_parts(parts[0]) =~= parts);
    } else {
        let front = parts.drop_last();
        assert forall|i: int| 0 <= i < front.len() implies hyphen_free(#[trigger] front[i]) by {
            assert(front[i] == parts[i]);
        }
        lemma_parts_of_join(front);
        let stem = join_with_hyphens(front) + seq![HYPHEN];
        assert(stem.drop_last() =~= join_with_hyphens(front));
        assert(stem.last() == HYPHEN);
        assert(hyphen_parts(stem) == front.push(Seq::empty()));
        lemma_parts_extend(stem, parts.last());
        assert(Seq::<u8>::empty() + parts.last() =~= parts.last());
        assert(hyphen_parts(stem + parts.last()) =~= parts);
    }
}

/// Joining undoes splitting, and no part holds a hyphen.
pub proof fn lemma_join_of_parts(text: Seq<u8>)
    ensures
        hyphen_parts(text).len() >= 1,
        join_with_hyphens(hyphen_parts(text)) == text,
        forall|i: int|
            0 <= i < hyphen_parts(text).len() ==> hyphen_free(#[trigger] hyphen_parts(text)[i]),
    decreases text.len(),
{
    lemma_parts_nonempty(text);
    if text.len() == 0 {
        assert(join_with_hyphens(hyphen_parts(text)) =~= text);
    } else {
        let shorter = text.drop_last();
        lemma_join_of_parts(shorter);
        let before = hyphen_parts(shorter);
        let parts = hyphen_parts(text);
        if text.last() == HYPHEN {
            assert(parts.drop_last() =~= before);
            assert(join_with_hyphens(parts) =~= shorter + seq![HYPHEN] + Seq::<u8>::empty());
            assert(shorter + seq![HYPHEN] + Seq::<u8>::empty() =~= text);
            assert forall|i: int| 0 <= i < parts.len() implies hyphen_free(#[trigger] parts[i]) by {
                if i < before.len() {
                    assert(parts[i] == before[i]);
                }
            }
        } else {
            let grown = before.last().push(text.last());
            assert forall|i: int| 0 <= i < parts.len() implies hyphen_free(#[trigger] parts[i]) by {
                if i < before.len() - 1 {
                    assert(parts[i] == before[i]);
                } else {
                    assert(hyphen_free(before.last()));
                    assert forall|j: int| 0 <= j < grown.len() implies #[trigger] grown[j]
                        != HYPHEN by {
                        if j < before.last().len() {
                            assert(grown[j] == before.last()[j]);
                        }
                    }
                }
            }
            if before.len() == 1 {
                assert(join_with_hyphens(before) == before[0]);
                assert(join_with_hyphens(parts) =~= text);
            } else {
                assert(parts.drop_last() =~= before.drop_last());
                assert(join_with_hyphens(before) == join_with_hyphens(before.drop_last())
                    + seq![HYPHEN] + before.last());
                assert(join_with_hyphens(parts) == join_with_hyphens(before.drop_last())
                    + seq![HYPHEN] + grown);
                assert(join_with_hyphens(parts) =~= join_with_hyphens(before).push(text.last()));
                assert(shorter.push(text.last()) =~= text);
            }
        }
    }
}

/// Splits `text` at its hyphens: the parts hold no hyphen, there is at least
/// one, and written out with hyphens between them they give `text` back.
pub fn split_on_hyphen(text: &Vec<u8>) -> (parts: Vec<Vec<u8>>)
    ensures
        texts(parts@) == hyphen_parts(text@),
        parts.len() >= 1,
        join_with_hyphens(texts(parts@)) == text@,
        forall|i: int| 0 <= i < parts.len() ==> hyphen_free(#[trigger] parts[i]@),
{
    let mut parts: Vec<Vec<u8>> = Vec::new();
    let mut current: Vec<u8> = Vec::new();
    let mut i: usize = 0;
    assert(texts(parts@).push(current@) =~= hyphen_parts(text@.take(0)));
    while i < text.len()
        invariant
            0 <= i <= text.len(),
            texts(parts@).push(current@) == hyphen_parts(text@.take(i as int)),
        decreases text.len() - i,
    {
        let b = text[i];
        let ghost done = texts(parts@);
        let ghost open = current@;
        proof {
            let next = text@.take(i + 1);
            assert(next.drop_last() =~= text@.take(i as int));
            assert(next.last() == b);
        }
        if b == HYPHEN {
            parts.push(current);
            current = Vec::new();
            assert(texts(parts@) =~= done.push(open));
            assert(current@ =~= Seq::<u8>::empty());
        } else {
            current.push(b);
            assert(done.push(current@) =~= done.push(open).update(done.len() as int, open.push(b)));
        }
        i = i + 1;
    }
    assert(text@.take(text.len() as int) =~= text@);
    let ghost done = texts(parts@);
    parts.push(current);
    assert(texts(parts@) =~= done.push(current@));
    proof {
        lemma_join_of_parts(text@);
        assert forall|i: int| 0 <= i < parts.len() implies hyphen_free(#[trigger] parts[i]@) by {
            assert(texts(parts@)[i] == parts[i]@);
        }
    }
    parts
}

} // verus!
