//! Ordering of directory listings: directories first, then by name.

use vstd::prelude::*;

verus! {

/// Lexicographic order on texts by code point, as `str`'s `Ord` compares
/// (byte order of UTF-8 agrees with code-point order).
pub open spec fn text_lt(a: Seq<char>, b: Seq<char>) -> bool
    decreases a.len(),
{
    if a.len() == 0 {
        b.len() > 0
    } else if b.len() == 0 {
        false
    } else if a[0] != b[0] {
        (a[0] as u32) < (b[0] as u32)
    } else {
        text_lt(a.drop_first(), b.drop_first())
    }
}

/// Listing order: a directory comes before a file; otherwise by key text.
pub open spec fn entry_lt(a: (bool, Seq<char>), b: (bool, Seq<char>)) -> bool {
    (a.0 && !b.0) || (a.0 == b.0 && text_lt(a.1, b.1))
}

pub proof fn lemma_text_lt_irreflexive(a: Seq<char>)
    ensures
        !text_lt(a, a),
    decreases a.len(),
{
    if a.len() > 0 {
        lemma_text_lt_irreflexive(a.drop_first());
    }
}

pub proof fn lemma_text_lt_asymmetric(a: Seq<char>, b: Seq<char>)
    ensures
        text_lt(a, b) ==> !text_lt(b, a),
    decreases a.len(),
{
    if a.len() > 0 && b.len() > 0 && a[0] == b[0] {
        lemma_text_lt_asymmetric(a.drop_first(), b.drop_first());
    }
}

pub proof fn lemma_text_lt_transitive(a: Seq<char>, b: Seq<char>, c: Seq<char>)
    ensures
        text_lt(a, b) && text_lt(b, c) ==> text_lt(a, c),
    decreases a.len(),
{
    if a.len() > 0 && b.len() > 0 && c.len() > 0 {
        lemma_text_lt_transitive(a.drop_first(), b.drop_first(), c.drop_first());
    }
}

pub proof fn lemma_text_lt_total(a: Seq<char>, b: Seq<char>)
    ensures
        text_lt(a, b) || text_lt(b, a) || a == b,
    decreases a.len(),
{
    if a.len() > 0 && b.len() > 0 {
        lemma_text_lt_total(a.drop_first(), b.drop_first());
        vstd::utf8::char_u32_cast(a[0], a[0] as u32);
        vstd::utf8::char_u32_cast(b[0], b[0] as u32);
        if a[0] == b[0] && a.drop_first() == b.drop_first() {
            assert(a =~= seq![a[0]] + a.drop_first());
            assert(b =~= seq![b[0]] + b.drop_first());
        }
    } else if a.len() == 0 && b.len() == 0 {
        assert(a =~= b);
    }
}

/// The listing order is a strict weak order in which "not after" is transitive.
pub proof fn lemma_entry_not_after_transitive(
    a: (bool, Seq<char>),
    b: (bool, Seq<char>),
    c: (bool, Seq<char>),
)
    ensures
        !entry_lt(b, a) && !entry_lt(c, b) ==> !entry_lt(c, a),
{
    lemma_text_lt_total(a.1, b.1);
    lemma_text_lt_transitive(c.1, a.1, b.1);
    lemma_text_lt_transitive(c.1, b.1, a.1);
    lemma_text_lt_transitive(b.1, c.1, a.1);
    lemma_text_lt_asymmetric(a.1, b.1);
}

pub proof fn lemma_entry_lt_asymmetric(a: (bool, Seq<char>), b: (bool, Seq<char>))
    ensures
        entry_lt(a, b) ==> !entry_lt(b, a),
{
    lemma_text_lt_asymmetric(a.1, b.1);
}

/// Whether key `(d1, k1)` comes strictly before `(d2, k2)` in listing order.
pub fn entry_before(d1: bool, k1: &[char], d2: bool, k2: &[char]) -> (r: bool)
    ensures
        r == entry_lt((d1, k1@), (d2, k2@)),
{
    if d1 && !d2 {
        return true;
    }
    if d1 != d2 {
        return false;
    }
    let mut i: usize = 0;
    assert(k1@.skip(0) =~= k1@ && k2@.skip(0) =~= k2@);
    while i < k1.len() && i < k2.len() && k1[i] == k2[i]
        invariant
            i <= k1.len(),
            i <= k2.len(),
            text_lt(k1@, k2@) == text_lt(k1@.skip(i as int), k2@.skip(i as int)),
        decreases k1.len() - i,
    {
        assert(k1@.skip(i as int).drop_first() =~= k1@.skip(i + 1));
        assert(k2@.skip(i as int).drop_first() =~= k2@.skip(i + 1));
        i = i + 1;
    }
    assert(i < k1.len() ==> k1@.skip(i as int)[0] == k1@[i as int]);
    assert(i < k2.len() ==> k2@.skip(i as int)[0] == k2@[i as int]);
    if i == k1.len() {
        i < k2.len()
    } else if i == k2.len() {
        false
    } else {
        (k1[i] as u32) < (k2[i] as u32)
    }
}

/// `x` put into `out`, walking back from the end past every item that it
/// comes strictly before (so after the items with an equal key).
pub open spec fn insert_listing<T>(out: Seq<T>, x: T, key: spec_fn(T) -> (bool, Seq<char>)) -> Seq<T>
    decreases out.len(),
{
    if out.len() > 0 && entry_lt(key(x), key(out.last())) {
        insert_listing(out.drop_last(), x, key).push(out.last())
    } else {
        out.push(x)
    }
}

/// The items in listing order, put in one by one from the first: items with
/// equal keys keep their relative order.
pub open spec fn listing_order<T>(s: Seq<T>, key: spec_fn(T) -> (bool, Seq<char>)) -> Seq<T>
    decreases s.len(),
{
    if s.len() == 0 {
        Seq::empty()
    } else {
        insert_listing(listing_order(s.drop_last(), key), s.last(), key)
    }
}

proof fn lemma_insert_listing_at<T>(out: Seq<T>, x: T, key: spec_fn(T) -> (bool, Seq<char>), pos: int)
    requires
        0 <= pos <= out.len(),
        forall|j: int| pos <= j < out.len() ==> entry_lt(key(x), key(#[trigger] out[j])),
        pos == 0 || !entry_lt(key(x), key(out[pos - 1])),
    ensures
        insert_listing(out, x, key) == out.insert(pos, x),
    decreases out.len(),
{
    if out.len() == pos {
        assert(out.push(x) =~= out.insert(pos, x));
    } else {
        assert(entry_lt(key(x), key(out[out.len() - 1])));
        let d = out.drop_last();
        assert forall|j: int| pos <= j < d.len() implies entry_lt(key(x), key(#[trigger] d[j])) by {
            assert(d[j] == out[j]);
        }
        if pos > 0 {
            assert(d[pos - 1] == out[pos - 1]);
        }
        lemma_insert_listing_at(d, x, key, pos);
        assert(d.insert(pos, x).push(out.last()) =~= out.insert(pos, x));
    }
}

/// Puts items in listing order, directories first and then by key text.
/// Items with equal keys keep their relative order.
///
/// `dirs[j]` and `keys[j]` are the key of `items[j]`; the ghost functions say
/// which key each item has.
pub fn sort_listing<T>(
    items: Vec<T>,
    dirs: Vec<bool>,
    keys: Vec<Vec<char>>,
    Ghost(dirf): Ghost<spec_fn(T) -> bool>,
    Ghost(keyf): Ghost<spec_fn(T) -> Seq<char>>,
) -> (r: Vec<T>)
    requires
        dirs.len() == items.len(),
        keys.len() == items.len(),
        forall|j: int| 0 <= j < items.len() ==> dirs[j] == dirf(#[trigger] items[j]),
        forall|j: int| 0 <= j < items.len() ==> keys[j]@ == keyf(#[trigger] items[j]),
    ensures
        r@ == listing_order(items@, |t: T| (dirf(t), keyf(t))),
        r@.to_multiset() == items@.to_multiset(),
        r.len() == items.len(),
        forall|i: int, j: int|
            0 <= i < j < r.len() ==> !entry_lt(
                (dirf(#[trigger] r[j]), keyf(r[j])),
                (dirf(#[trigger] r[i]), keyf(r[i])),
            ),
{
    broadcast use vstd::seq_lib::group_to_multiset_ensures, vstd::multiset::group_multiset_axioms;

    let ghost orig = items@;
    let ghost key = |t: T| (dirf(t), keyf(t));
    let total = items.len();
    let mut rest = items;
    let mut rest_dirs = dirs;
    let mut rest_keys = keys;
    let mut out: Vec<T> = Vec::new();
    let mut out_dirs: Vec<bool> = Vec::new();
    let mut out_keys: Vec<Vec<char>> = Vec::new();
    while rest.len() > 0
        invariant
            rest_dirs.len() == rest.len(),
            rest_keys.len() == rest.len(),
            out_dirs.len() == out.len(),
            out_keys.len() == out.len(),
            out.len() + rest.len() == total,
            orig.len() == total,
            key == (|t: T| (dirf(t), keyf(t))),
            forall|j: int| 0 <= j < rest.len() ==> rest_dirs[j] == dirf(#[trigger] rest[j]),
            forall|j: int| 0 <= j < rest.len() ==> rest_keys[j]@ == keyf(#[trigger] rest[j]),
            forall|j: int| 0 <= j < out.len() ==> out_dirs[j] == dirf(#[trigger] out[j]),
            forall|j: int| 0 <= j < out.len() ==> out_keys[j]@ == keyf(#[trigger] out[j]),
            out@.to_multiset().add(rest@.to_multiset()) == orig.to_multiset(),
            rest@ == orig.skip(out.len() as int),
            out@ == listing_order(orig.take(out.len() as int), key),
            forall|i: int, j: int|
                0 <= i < j < out.len() ==> !entry_lt(key(#[trigger] out[j]), key(#[trigger] out[i])),
        decreases rest.len(),
    {
        let ghost rest_before = rest@;
        let ghost k = out.len() as int;
        let x = rest.remove(0);
        assert(x == orig[k]) by {
            assert(rest_before[0] == orig.skip(k)[0]);
        }
        let xd = rest_dirs.remove(0);
        let xk = rest_keys.remove(0);
        assert(rest_before.remove(0) =~= rest@);
        assert(xd == dirf(x) && xk@ == keyf(x)) by {
            assert(rest_before[0] == x);
        }
        assert forall|j: int| 0 <= j < rest.len() implies rest_dirs[j] == dirf(#[trigger] rest[j])
            && rest_keys[j]@ == keyf(rest[j]) by {
            assert(rest[j] == rest_before[j + 1]);
        }
        // Walk back past every element that the new one comes strictly before.
        let mut pos: usize = out.len();
        while pos > 0 && entry_before(xd, xk.as_slice(), out_dirs[pos - 1], out_keys[pos - 1].as_slice())
            invariant
                pos <= out.len(),
                out_dirs.len() == out.len(),
                out_keys.len() == out.len(),
                xd == dirf(x),
                xk@ == keyf(x),
                key == (|t: T| (dirf(t), keyf(t))),
                forall|j: int| 0 <= j < out.len() ==> out_dirs[j] == dirf(#[trigger] out[j]),
                forall|j: int| 0 <= j < out.len() ==> out_keys[j]@ == keyf(#[trigger] out[j]),
                forall|j: int| pos <= j < out.len() ==> entry_lt(key(x), key(#[trigger] out[j])),
            decreases pos,
        {
            pos = pos - 1;
        }
        proof {
            if pos > 0 {
                assert(!entry_lt(key(x), key(out[pos - 1])));
                assert forall|j: int| 0 <= j < pos implies !entry_lt(key(x), key(#[trigger] out[j])) by {
                    if j < pos - 1 {
                        lemma_entry_not_after_transitive(key(out[j]), key(out[pos - 1]), key(x));
                    }
                }
            }
            assert forall|j: int| pos <= j < out.len() implies !entry_lt(key(#[trigger] out[j]), key(x)) by {
                lemma_entry_lt_asymmetric(key(x), key(out[j]));
            }
        }
        let ghost out_before = out@;
        out.insert(pos, x);
        out_dirs.insert(pos, xd);
        out_keys.insert(pos, xk);
        proof {
            assert(out@ == out_before.insert(pos as int, x));
            assert forall|j: int| pos <= j < out_before.len() implies entry_lt(
                key(x),
                key(#[trigger] out_before[j]),
            ) by {}
            lemma_insert_listing_at(out_before, x, key, pos as int);
            assert(orig.take(k + 1).drop_last() =~= orig.take(k));
            assert(orig.take(k + 1).last() == orig[k]);
            assert(rest@ =~= orig.skip(k + 1));
            vstd::seq_lib::to_multiset_insert(out_before, pos as int, x);
            assert forall|j: int| 0 <= j < out.len() implies out_dirs[j] == dirf(#[trigger] out[j])
                && out_keys[j]@ == keyf(out[j]) by {
                if j < pos {
                    assert(out[j] == out_before[j]);
                } else if j > pos {
                    assert(out[j] == out_before[j - 1]);
                }
            }
            assert forall|i: int, j: int| 0 <= i < j < out.len() implies !entry_lt(
                key(#[trigger] out[j]),
                key(#[trigger] out[i]),
            ) by {
                let oi = if i < pos { i } else if i == pos { -1 } else { i - 1 };
                let oj = if j < pos { j } else if j == pos { -1 } else { j - 1 };
                if i != pos && j != pos {
                    assert(out[i] == out_before[oi]);
                    assert(out[j] == out_before[oj]);
                } else if i == pos {
                    assert(out[j] == out_before[oj]);
                } else {
                    assert(out[i] == out_before[oi]);
                }
            }
            assert(rest_before.to_multiset() =~= rest@.to_multiset().insert(x)) by {
                vstd::seq_lib::to_multiset_remove(rest_before, 0);
                vstd::seq_lib::to_multiset_contains(rest_before, x);
                assert(rest_before.contains(x)) by {
                    assert(rest_before[0] == x);
                }
            }
            assert(out@.to_multiset().add(rest@.to_multiset()) =~= orig.to_multiset());
        }
    }
    proof {
        assert(orig.take(total as int) =~= orig);
        assert(rest@.to_multiset() =~= vstd::multiset::Multiset::empty());
        assert(out@.to_multiset() =~= orig.to_multiset());
    }
    out
}

} // verus!
