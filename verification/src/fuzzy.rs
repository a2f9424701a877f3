//! Fuzzy matching: finding the characters of a query, in order, in a name.

use vstd::prelude::*;
use vstd::std_specs::iter::IteratorSpec;

verus! {

/// The lowercase form of a text under Unicode's case mapping, as
/// `str::to_lowercase` computes it.
pub uninterp spec fn lowercased(s: Seq<char>) -> Seq<char>;

/// `str::to_lowercase`: the text with every character replaced by its
/// lowercase form. The same text always gives the same result.
#[verifier::external_body]
pub(crate) fn to_lowercase(s: &str) -> (r: String)
    ensures
        r@ == lowercased(s@),
{
    s.to_lowercase()
}

/// `idx` picks positions of `text`, from left to right, that spell `pattern`.
pub open spec fn embeds(pattern: Seq<char>, text: Seq<char>, idx: Seq<int>) -> bool {
    &&& idx.len() == pattern.len()
    &&& forall|k: int|
        0 <= k < idx.len() ==> 0 <= #[trigger] idx[k] < text.len() && text[idx[k]] == pattern[k]
    &&& forall|j: int, k: int| 0 <= j < k < idx.len() ==> idx[j] < idx[k]
}

/// The characters of `pattern` occur in `text` in the same order, not
/// necessarily side by side.
pub open spec fn is_subsequence(pattern: Seq<char>, text: Seq<char>) -> bool {
    exists|idx: Seq<int>| embeds(pattern, text, idx)
}

/// Whether the characters of `pattern` occur in `text` in order. Case is
/// compared as it stands.
pub fn fuzzy_match(pattern: &str, text: &str) -> (r: bool)
    ensures
        r == is_subsequence(pattern@, text@),
{
    let mut wanted = pattern.chars();
    let mut current = wanted.next();
    let ghost mut matched: int = 0;
    let ghost mut picked: Seq<int> = Seq::empty();
    for c in it: text.chars()
        invariant
            0 <= matched <= pattern@.len(),
            it.seq() == text@,
            current == if matched < pattern@.len() {
                Some(pattern@[matched])
            } else {
                None::<char>
            },
            matched < pattern@.len() ==> wanted.remaining() == pattern@.skip(matched + 1),
            embeds(pattern@.take(matched), text@.take(it.index() as int), picked),
            forall|idx: Seq<int>|
                embeds(pattern@, text@, idx) && matched < pattern@.len() ==> #[trigger] idx[matched]
                    >= it.index(),
    {
        let ghost at = it.index() as int;
        match current {
            Some(w) => {
                if w == c {
                    current = wanted.next();
                    proof {
                        let grown = picked.push(at);
                        assert(embeds(pattern@.take(matched + 1), text@.take(at + 1), grown));
                        assert forall|idx: Seq<int>|
                            embeds(pattern@, text@, idx) && matched + 1
                                < pattern@.len() implies #[trigger] idx[matched + 1] >= at + 1 by {
                            assert(idx[matched] >= at);
                        }
                        if matched + 1 < pattern@.len() {
                            assert(pattern@.skip(matched + 1).drop_first() =~= pattern@.skip(
                                matched + 2,
                            ));
                        }
                        picked = grown;
                        matched = matched + 1;
                    }
                } else {
                    proof {
                        assert(embeds(pattern@.take(matched), text@.take(at + 1), picked));
                        assert forall|idx: Seq<int>|
                            embeds(pattern@, text@, idx) implies #[trigger] idx[matched] >= at
                            + 1 by {
                            assert(idx[matched] >= at);
                            assert(text@[idx[matched]] == pattern@[matched]);
                        }
                    }
                }
            },
            None => {
                proof {
                    assert(pattern@.take(matched) =~= pattern@);
                    assert(embeds(pattern@, text@, picked));
                }
                return true;
            },
        }
    }
    proof {
        if matched == pattern@.len() {
            assert(pattern@.take(matched) =~= pattern@);
            assert(embeds(pattern@, text@, picked));
        } else {
            assert forall|idx: Seq<int>| !embeds(pattern@, text@, idx) by {
                if embeds(pattern@, text@, idx) {
                    assert(idx[matched] >= text@.len());
                }
            }
        }
    }
    current.is_none()
}

} // verus!
