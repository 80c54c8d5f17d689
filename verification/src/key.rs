//! Cache keys: the fingerprint of an argument set's canonical form.

use vstd::prelude::*;
use vstd::seq_lib::*;
use crate::arguments::{ArgEntries, Arguments};
use crate::canonical::{
    all_text, canonical_form, canonicalize, lemma_token_bag_of_permutation,
    lemma_token_list_concat, token_list, ROTATE,
};
use crate::error::CacheError;
use crate::fingerprint::{fingerprint, fingerprint_of, is_fingerprint};
use crate::text::{lemma_text_order_total, text_order};

verus! {

/// The cache key of an argument set.
pub open spec fn cache_key_of(entries: ArgEntries) -> Seq<char> {
    fingerprint_of(canonical_form(entries))
}

/// Computes the cache key of `args`: 32 hexadecimal digits that depend only on
/// which arguments other than `rotate` are present and on their values.
///
/// Fails with `InvalidArgument` exactly when an argument other than `rotate`
/// has a value that is not a string.
pub fn cache_key(args: &Arguments) -> (res: Result<String, CacheError>)
    ensures
        match res {
            Ok(key) => all_text(args@) && key@ == cache_key_of(args@) && is_fingerprint(key@),
            Err(e) => e == CacheError::InvalidArgument && !all_text(args@),
        },
{
    match canonicalize(args) {
        Ok(text) => Ok(fingerprint(text.as_str())),
        Err(e) => Err(e),
    }
}

/// Two argument sets that hold the same arguments, in whatever order, have
/// the same canonical form and the same cache key.
pub proof fn lemma_key_ignores_order(a: ArgEntries, b: ArgEntries)
    requires
        a.to_multiset() == b.to_multiset(),
    ensures
        canonical_form(a) == canonical_form(b),
        cache_key_of(a) == cache_key_of(b),
{
    lemma_token_bag_of_permutation(a, b);
    lemma_text_order_total();
    token_list(a).lemma_sort_by_ensures(text_order());
    token_list(b).lemma_sort_by_ensures(text_order());
    lemma_sorted_unique(
        token_list(a).sort_by(text_order()),
        token_list(b).sort_by(text_order()),
        text_order(),
    );
}

/// An argument named `rotate`, whatever its value and wherever it stands,
/// gives no token.
pub proof fn lemma_rotate_gives_no_token(
    entries: ArgEntries,
    i: int,
    value: Option<Seq<char>>,
)
    requires
        0 <= i <= entries.len(),
    ensures
        token_list(entries.insert(i, (ROTATE@, value))) == token_list(entries),
{
    let left = entries.subrange(0, i);
    let right = entries.subrange(i, entries.len() as int);
    let rotate = seq![(ROTATE@, value)];
    assert(entries =~= left + right);
    assert(entries.insert(i, (ROTATE@, value)) =~= left + rotate + right);
    lemma_token_list_concat(left + rotate, right);
    lemma_token_list_concat(left, rotate);
    lemma_token_list_concat(left, right);
    assert(token_list(rotate.drop_last()) =~= Seq::<Seq<char>>::empty());
}

/// Adding `rotate` to an argument set, changing its value or removing it
/// changes neither the canonical form nor the cache key.
pub proof fn lemma_key_ignores_rotate(
    entries: ArgEntries,
    i: int,
    value: Option<Seq<char>>,
)
    requires
        0 <= i <= entries.len(),
    ensures
        cache_key_of(entries.insert(i, (ROTATE@, value))) == cache_key_of(entries),
        i < entries.len() && entries[i].0 == ROTATE@ ==> cache_key_of(
            entries.update(i, (ROTATE@, value)),
        ) == cache_key_of(entries),
        i < entries.len() && entries[i].0 == ROTATE@ ==> cache_key_of(entries.remove(i))
            == cache_key_of(entries),
{
    lemma_rotate_gives_no_token(entries, i, value);
    if i < entries.len() && entries[i].0 == ROTATE@ {
        let rest = entries.remove(i);
        lemma_rotate_gives_no_token(rest, i, entries[i].1);
        lemma_rotate_gives_no_token(rest, i, value);
        assert(rest.insert(i, (ROTATE@, entries[i].1)) =~= entries);
        assert(rest.insert(i, (ROTATE@, value)) =~= entries.update(i, (ROTATE@, value)));
    }
}

} // verus!
