//! Lexicographic ordering facts and a stable sorted insertion, shared by
//! every list the snapshot keeps in deterministic order.

use vstd::prelude::*;

use crate::text::{lemma_lex_le_total, lex_le};

verus! {

/// Strict lexicographic order.
pub open spec fn lex_lt(a: Seq<char>, b: Seq<char>) -> bool {
    lex_le(a, b) && a != b
}

pub proof fn lemma_lex_le_trans(a: Seq<char>, b: Seq<char>, c: Seq<char>)
    requires
        lex_le(a, b),
        lex_le(b, c),
    ensures
        lex_le(a, c),
    decreases a.len(),
{
    if a.len() > 0 {
        if a[0] as u32 == b[0] as u32 && b[0] as u32 == c[0] as u32 {
            lemma_lex_le_trans(a.skip(1), b.skip(1), c.skip(1));
        }
    }
}

pub proof fn lemma_lex_le_antisym(a: Seq<char>, b: Seq<char>)
    requires
        lex_le(a, b),
        lex_le(b, a),
    ensures
        a == b,
    decreases a.len(),
{
    if a.len() == 0 {
        assert(a =~= b);
    } else {
        assert(a[0] as u32 == b[0] as u32);
        vstd::utf8::char_u32_cast(a[0], a[0] as u32);
        vstd::utf8::char_u32_cast(b[0], a[0] as u32);
        lemma_lex_le_antisym(a.skip(1), b.skip(1));
        assert(a[0] == b[0]);
        assert(a.len() == b.len());
        assert forall|i: int| 0 <= i < a.len() implies a[i] == b[i] by {
            if i > 0 {
                assert(a.skip(1)[i - 1] == a[i]);
                assert(b.skip(1)[i - 1] == b[i]);
            }
        }
        assert(a =~= b);
    }
}

/// The strict order is the negation of the reversed weak order.
pub proof fn lemma_lex_lt_iff(a: Seq<char>, b: Seq<char>)
    ensures
        lex_lt(a, b) <==> !lex_le(b, a),
{
    lemma_lex_le_total(a, b);
    if lex_lt(a, b) && lex_le(b, a) {
        lemma_lex_le_antisym(a, b);
    }
}

/// The strict order is transitive.
pub proof fn lemma_lex_lt_trans(a: Seq<char>, b: Seq<char>, c: Seq<char>)
    requires
        lex_lt(a, b),
        lex_lt(b, c),
    ensures
        lex_lt(a, c),
{
    lemma_lex_le_trans(a, b, c);
    if a == c {
        lemma_lex_le_antisym(a, b);
    }
}

/// Insert `x` into a key-sorted sequence, after every element whose key is
/// not strictly above `x`'s: the stable insertion an in-order stable sort
/// performs.
pub open spec fn keyed_insert<A>(s: Seq<A>, x: A, key: spec_fn(A) -> Seq<char>) -> Seq<A>
    decreases s.len(),
{
    if s.len() == 0 {
        seq![x]
    } else if lex_lt(key(x), key(s[0])) {
        seq![x] + s
    } else {
        seq![s[0]] + keyed_insert(s.drop_first(), x, key)
    }
}

/// Non-decreasing keys.
pub open spec fn sorted_by_key<A>(s: Seq<A>, key: spec_fn(A) -> Seq<char>) -> bool {
    forall|i: int, j: int|
        0 <= i < j < s.len() ==> lex_le(key(#[trigger] s[i]), key(#[trigger] s[j]))
}

/// Every key of the insertion result is at or above `lo` whenever `x`'s key
/// and every key of `s` are.
proof fn lemma_keyed_insert_bounded<A>(
    s: Seq<A>,
    x: A,
    key: spec_fn(A) -> Seq<char>,
    lo: Seq<char>,
    j: int,
)
    requires
        lex_le(lo, key(x)),
        forall|i: int| 0 <= i < s.len() ==> lex_le(lo, key(#[trigger] s[i])),
        0 <= j < keyed_insert(s, x, key).len(),
    ensures
        lex_le(lo, key(keyed_insert(s, x, key)[j])),
    decreases s.len(),
{
    let r = keyed_insert(s, x, key);
    if s.len() == 0 {
    } else if lex_lt(key(x), key(s[0])) {
        if j > 0 {
            assert(r[j] == s[j - 1]);
        }
    } else {
        if j == 0 {
            assert(r[0] == s[0]);
        } else {
            let tail = s.drop_first();
            assert(forall|i: int| 0 <= i < tail.len() ==> lex_le(lo, key(#[trigger] tail[i])))
                by {
                assert(forall|i: int| 0 <= i < tail.len() ==> #[trigger] tail[i] == s[i + 1]);
            }
            lemma_keyed_insert_bounded(tail, x, key, lo, j - 1);
            assert(r[j] == keyed_insert(tail, x, key)[j - 1]);
        }
    }
}

/// Stable insertion keeps the keys non-decreasing.
pub proof fn lemma_keyed_insert_sorted<A>(s: Seq<A>, x: A, key: spec_fn(A) -> Seq<char>)
    requires
        sorted_by_key(s, key),
    ensures
        sorted_by_key(keyed_insert(s, x, key), key),
    decreases s.len(),
{
    let r = keyed_insert(s, x, key);
    if s.len() == 0 {
    } else if lex_lt(key(x), key(s[0])) {
        assert forall|i: int, j: int| 0 <= i < j < r.len() implies lex_le(
            key(#[trigger] r[i]),
            key(#[trigger] r[j]),
        ) by {
            assert(r[j] == s[j - 1]);
            if i == 0 {
                if j == 1 {
                } else {
                    lemma_lex_le_trans(key(x), key(s[0]), key(s[j - 1]));
                }
            } else {
                assert(r[i] == s[i - 1]);
            }
        }
    } else {
        let tail = s.drop_first();
        assert(sorted_by_key(tail, key)) by {
            assert forall|i: int, j: int| 0 <= i < j < tail.len() implies lex_le(
                key(#[trigger] tail[i]),
                key(#[trigger] tail[j]),
            ) by {
                assert(tail[i] == s[i + 1]);
                assert(tail[j] == s[j + 1]);
            }
        }
        lemma_keyed_insert_sorted(tail, x, key);
        let rt = keyed_insert(tail, x, key);
        lemma_lex_lt_iff(key(x), key(s[0]));
        assert forall|i: int, j: int| 0 <= i < j < r.len() implies lex_le(
            key(#[trigger] r[i]),
            key(#[trigger] r[j]),
        ) by {
            if i == 0 {
                assert(r[j] == rt[j - 1]);
                assert(forall|t: int|
                    0 <= t < tail.len() ==> lex_le(key(s[0]), key(#[trigger] tail[t]))) by {
                    assert(forall|t: int|
                        0 <= t < tail.len() ==> #[trigger] tail[t] == s[t + 1]);
                }
                lemma_keyed_insert_bounded(tail, x, key, key(s[0]), j - 1);
            } else {
                assert(r[i] == rt[i - 1]);
                assert(r[j] == rt[j - 1]);
            }
        }
    }
}

} // verus!
