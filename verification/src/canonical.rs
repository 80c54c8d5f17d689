//! The argument canonicalizer: it turns an argument set into one string that
//! does not depend on the order of the arguments.
//!
//! Every argument except `rotate` gives its name and, unless it is empty, its
//! unquoted value as tokens. The tokens are sorted and joined with `-`.

use vstd::prelude::*;
use vstd::relations::sorted_by;
use vstd::seq_lib::*;
use crate::arguments::{ArgEntries, Arguments};
use crate::error::CacheError;
use crate::text::{lemma_text_order_total, str_eq, str_le, text_le, text_order};

verus! {

/// The argument that sets a fragment's time to live. It decides how long a
/// fragment is kept, not what it contains, and gives no token.
pub const ROTATE: &'static str = "rotate";

/// The separator between the tokens of a canonical form.
pub const SEPARATOR: &'static str = "-";

/// Whether `c` is a quotation mark, double or single.
pub open spec fn is_quote(c: char) -> bool {
    c == '"' || c == '\''
}

/// `s` without one leading and one trailing quotation mark, where present.
pub open spec fn unquoted(s: Seq<char>) -> Seq<char> {
    let from: int = if s.len() > 0 && is_quote(s[0]) {
        1
    } else {
        0
    };
    let to: int = if s.len() > from && is_quote(s[s.len() - 1]) {
        s.len() - 1
    } else {
        s.len() as int
    };
    s.subrange(from, to)
}

/// The tokens that one argument gives: none for `rotate`, else its name,
/// followed by its unquoted value unless that is empty.
pub open spec fn entry_tokens(entry: (Seq<char>, Option<Seq<char>>)) -> Seq<Seq<char>> {
    if entry.0 == ROTATE@ {
        Seq::empty()
    } else {
        match entry.1 {
            Some(value) => if unquoted(value).len() == 0 {
                seq![entry.0]
            } else {
                seq![entry.0, unquoted(value)]
            },
            None => seq![entry.0],
        }
    }
}

/// The tokens of all arguments, in the order of the arguments.
pub open spec fn token_list(entries: ArgEntries) -> Seq<Seq<char>>
    decreases entries.len(),
{
    if entries.len() == 0 {
        Seq::empty()
    } else {
        token_list(entries.drop_last()) + entry_tokens(entries.last())
    }
}

/// Whether every argument except `rotate` has a string as its value.
pub open spec fn all_text(entries: ArgEntries) -> bool {
    forall|i: int|
        0 <= i < entries.len() && (#[trigger] entries[i]).0 != ROTATE@ ==> entries[i].1 is Some
}

/// `tokens` joined by `separator`.
pub open spec fn joined(tokens: Seq<Seq<char>>, separator: Seq<char>) -> Seq<char>
    decreases tokens.len(),
{
    if tokens.len() == 0 {
        Seq::empty()
    } else if tokens.len() == 1 {
        tokens[0]
    } else {
        joined(tokens.drop_last(), separator) + separator + tokens.last()
    }
}

/// The canonical form of an argument set: its tokens, sorted in the order of
/// strings and joined by the separator.
pub open spec fn canonical_form(entries: ArgEntries) -> Seq<char> {
    joined(token_list(entries).sort_by(text_order()), SEPARATOR@)
}

/// The texts of a sequence of strings.
pub open spec fn texts(tokens: Seq<&str>) -> Seq<Seq<char>> {
    tokens.map_values(|token: &str| token@)
}

/// The tokens of two argument lists in a row are the tokens of the first
/// followed by those of the second.
pub proof fn lemma_token_list_concat(a: ArgEntries, b: ArgEntries)
    ensures
        token_list(a + b) == token_list(a) + token_list(b),
    decreases b.len(),
{
    if b.len() == 0 {
        assert(a + b =~= a);
    } else {
        lemma_token_list_concat(a, b.drop_last());
        assert((a + b).drop_last() =~= a + b.drop_last());
    }
}

/// Two argument lists with the same entries, in whatever order, give the same
/// tokens, in whatever order.
pub proof fn lemma_token_bag_of_permutation(a: ArgEntries, b: ArgEntries)
    requires
        a.to_multiset() == b.to_multiset(),
    ensures
        token_list(a).to_multiset() == token_list(b).to_multiset(),
    decreases a.len(),
{
    broadcast use vstd::multiset::group_multiset_axioms;

    to_multiset_len(a);
    to_multiset_len(b);
    if a.len() == 0 {
        assert(b.len() == 0);
    } else {
        let x = a.last();
        let a0 = a.drop_last();
        assert(a =~= a0.push(x));
        to_multiset_build(a0, x);
        to_multiset_contains(a, x);
        to_multiset_contains(b, x);
        let i = choose|i: int| 0 <= i < b.len() && b[i] == x;
        let b0 = b.remove(i);
        to_multiset_remove(b, i);
        assert(a0.to_multiset() =~= a.to_multiset().remove(x));
        lemma_token_bag_of_permutation(a0, b0);
        let left = b.subrange(0, i);
        let right = b.subrange(i + 1, b.len() as int);
        assert(b =~= left + seq![x] + right);
        lemma_token_list_concat(left + seq![x], right);
        lemma_token_list_concat(left, seq![x]);
        lemma_token_list_concat(left, right);
        assert(token_list(seq![x].drop_last()) =~= Seq::<Seq<char>>::empty());
        lemma_multiset_commutative(token_list(left) + entry_tokens(x), token_list(right));
        lemma_multiset_commutative(token_list(left), entry_tokens(x));
        lemma_multiset_commutative(token_list(left), token_list(right));
        lemma_multiset_commutative(token_list(a0), entry_tokens(x));
    }
}

/// Whatever sorted sequence holds exactly the tokens of an argument set, the
/// canonical form is that sequence joined by the separator.
pub proof fn lemma_canonical_form_of_sorted_tokens(entries: ArgEntries, tokens: Seq<Seq<char>>)
    requires
        sorted_by(tokens, text_order()),
        tokens.to_multiset() == token_list(entries).to_multiset(),
    ensures
        canonical_form(entries) == joined(tokens, SEPARATOR@),
{
    lemma_text_order_total();
    token_list(entries).lemma_sort_by_ensures(text_order());
    lemma_sorted_unique(tokens, token_list(entries).sort_by(text_order()), text_order());
}

/// Whether `c` is a quotation mark, double or single.
pub fn is_quote_char(c: char) -> (quote: bool)
    ensures
        quote == is_quote(c),
{
    c == '"' || c == '\''
}

/// Strips one leading and one trailing quotation mark from `s`, where
/// present.
pub fn unquote(s: &str) -> (inner: &str)
    ensures
        inner@ == unquoted(s@),
{
    let len = s.unicode_len();
    let mut from: usize = 0;
    let mut to: usize = len;
    if len > 0 && is_quote_char(s.get_char(0)) {
        from = 1;
    }
    if to > from && is_quote_char(s.get_char(to - 1)) {
        to = to - 1;
    }
    s.substring_char(from, to)
}

/// Collects the tokens of `args`, or fails on the first argument other than
/// `rotate` whose value is not a string.
fn collect_tokens(args: &Arguments) -> (res: Result<Vec<&str>, CacheError>)
    ensures
        match res {
            Ok(tokens) => all_text(args@) && texts(tokens@) == token_list(args@),
            Err(e) => e == CacheError::InvalidArgument && !all_text(args@),
        },
{
    let mut tokens: Vec<&str> = Vec::new();
    let mut i: usize = 0;
    proof {
        assert(args@.take(0) =~= ArgEntries::empty());
    }
    while i < args.len()
        invariant
            i <= args@.len(),
            all_text(args@.take(i as int)),
            texts(tokens@) == token_list(args@.take(i as int)),
        decreases args@.len() - i,
    {
        let key = args.key_at(i);
        let ghost before = tokens@;
        proof {
            assert(args@.take(i + 1).drop_last() =~= args@.take(i as int));
        }
        if !str_eq(key, ROTATE) {
            match args.value_at(i).as_text() {
                Some(value) => {
                    tokens.push(key);
                    let inner = unquote(value);
                    if inner.unicode_len() > 0 {
                        tokens.push(inner);
                        assert(texts(tokens@) =~= texts(before) + seq![key@, inner@]);
                    } else {
                        assert(texts(tokens@) =~= texts(before) + seq![key@]);
                    }
                },
                None => {
                    return Err(CacheError::InvalidArgument);
                },
            }
        } else {
            assert(texts(tokens@) =~= texts(before) + Seq::<Seq<char>>::empty());
        }
        proof {
            assert forall|j: int|
                0 <= j < i + 1 && (#[trigger] args@.take(i + 1)[j]).0 != ROTATE@ implies args@.take(
                i + 1,
            )[j].1 is Some by {
                if j < i {
                    assert(args@.take(i as int)[j] == args@.take(i + 1)[j]);
                }
            }
        }
        i += 1;
    }
    proof {
        assert(args@.take(i as int) =~= args@);
    }
    Ok(tokens)
}

/// Sorts `tokens` in the order of strings.
fn sort_tokens<'a>(tokens: &Vec<&'a str>) -> (sorted: Vec<&'a str>)
    ensures
        texts(sorted@) == texts(tokens@).sort_by(text_order()),
{
    let mut sorted: Vec<&'a str> = Vec::new();
    let mut k: usize = 0;
    proof {
        lemma_text_order_total();
        assert(texts(tokens@.take(0)) =~= texts(sorted@));
    }
    while k < tokens.len()
        invariant
            k <= tokens.len(),
            sorted.len() == k,
            sorted_by(texts(sorted@), text_order()),
            texts(sorted@).to_multiset() == texts(tokens@.take(k as int)).to_multiset(),
            vstd::relations::total_ordering(text_order()),
        decreases tokens.len() - k,
    {
        let token = tokens[k];
        let ghost before = texts(sorted@);
        let mut at: usize = 0;
        while at < sorted.len() && str_le(sorted[at], token)
            invariant
                at <= sorted.len(),
                texts(sorted@) == before,
                forall|j: int| 0 <= j < at ==> text_le(#[trigger] before[j], token@),
            decreases sorted.len() - at,
        {
            at += 1;
        }
        sorted.insert(at, token);
        proof {
            let after = texts(sorted@);
            let order = text_order();
            assert(after =~= before.insert(at as int, token@));
            assert forall|i: int, j: int| 0 <= i < j < after.len() implies #[trigger] order(
                after[i],
                after[j],
            ) by {
                if j < at {
                    assert(order(before[i], before[j]));
                } else if j == at {
                    assert(text_le(before[i], token@));
                } else if i == at {
                    assert(order(before[at as int], token@) || order(token@, before[at as int]));
                    if j - 1 > at {
                        assert(order(token@, before[at as int]) && order(
                            before[at as int],
                            before[j - 1],
                        ));
                    }
                } else if i < at {
                    assert(order(before[i], before[j - 1]));
                } else {
                    assert(order(before[i - 1], before[j - 1]));
                }
            }
            to_multiset_insert(before, at as int, token@);
            assert(texts(tokens@.take(k + 1)) =~= texts(tokens@.take(k as int)).push(token@));
            to_multiset_build(texts(tokens@.take(k as int)), token@);
        }
        k += 1;
    }
    proof {
        assert(tokens@.take(k as int) =~= tokens@);
        texts(tokens@).lemma_sort_by_ensures(text_order());
        lemma_sorted_unique(texts(sorted@), texts(tokens@).sort_by(text_order()), text_order());
    }
    sorted
}

/// Joins `tokens` with the separator.
fn join_tokens(tokens: &Vec<&str>) -> (text: String)
    ensures
        text@ == joined(texts(tokens@), SEPARATOR@),
{
    let mut text = String::new();
    let mut i: usize = 0;
    proof {
        assert(texts(tokens@).take(0) =~= Seq::<Seq<char>>::empty());
    }
    while i < tokens.len()
        invariant
            i <= tokens.len(),
            text@ == joined(texts(tokens@).take(i as int), SEPARATOR@),
        decreases tokens.len() - i,
    {
        proof {
            let next = texts(tokens@).take(i + 1);
            assert(next.drop_last() =~= texts(tokens@).take(i as int));
            if i == 0 {
                assert(next[0] == tokens@[0]@);
            }
        }
        if i > 0 {
            text.append(SEPARATOR);
        }
        text.append(tokens[i]);
        i += 1;
    }
    proof {
        assert(texts(tokens@).take(i as int) =~= texts(tokens@));
    }
    text
}

/// Computes the canonical form of `args`.
///
/// Fails with `InvalidArgument` exactly when an argument other than `rotate`
/// has a value that is not a string.
pub fn canonicalize(args: &Arguments) -> (res: Result<String, CacheError>)
    ensures
        match res {
            Ok(text) => all_text(args@) && text@ == canonical_form(args@),
            Err(e) => e == CacheError::InvalidArgument && !all_text(args@),
        },
{
    match collect_tokens(args) {
        Ok(tokens) => {
            let sorted = sort_tokens(&tokens);
            Ok(join_tokens(&sorted))
        },
        Err(e) => Err(e),
    }
}

} // verus!
