//! Lexicographic order of texts (the order of `str`'s `Ord`) and sorting by
//! it.

use vstd::prelude::*;
use vstd::multiset::Multiset;

verus! {

broadcast use vstd::seq_lib::group_seq_properties;

/// Whether `a` comes before `b` or equals it, comparing characters from the
/// start by their code points; a proper prefix comes first.
pub open spec fn text_le(a: Seq<char>, b: Seq<char>) -> bool
    decreases a.len(),
{
    if a.len() == 0 {
        true
    } else if b.len() == 0 {
        false
    } else if a[0] != b[0] {
        a[0] < b[0]
    } else {
        text_le(a.drop_first(), b.drop_first())
    }
}

/// Every text comes before or equals itself.
pub proof fn lemma_text_le_reflexive(a: Seq<char>)
    ensures
        text_le(a, a),
    decreases a.len(),
{
    if a.len() > 0 {
        lemma_text_le_reflexive(a.drop_first());
    }
}

/// Any two texts are ordered one way or the other.
pub proof fn lemma_text_le_total(a: Seq<char>, b: Seq<char>)
    ensures
        text_le(a, b) || text_le(b, a),
    decreases a.len(),
{
    if a.len() > 0 && b.len() > 0 && a[0] == b[0] {
        lemma_text_le_total(a.drop_first(), b.drop_first());
    }
}

/// The order is transitive.
pub proof fn lemma_text_le_transitive(a: Seq<char>, b: Seq<char>, c: Seq<char>)
    requires
        text_le(a, b),
        text_le(b, c),
    ensures
        text_le(a, c),
    decreases a.len(),
{
    if a.len() > 0 && b.len() > 0 && c.len() > 0 && a[0] == b[0] && b[0] == c[0] {
        lemma_text_le_transitive(a.drop_first(), b.drop_first(), c.drop_first());
    }
}

/// Texts that come before each other are equal.
pub proof fn lemma_text_le_antisymmetric(a: Seq<char>, b: Seq<char>)
    requires
        text_le(a, b),
        text_le(b, a),
    ensures
        a == b,
    decreases a.len(),
{
    if a.len() > 0 && b.len() > 0 {
        lemma_text_le_antisymmetric(a.drop_first(), b.drop_first());
        assert(a =~= seq![a[0]] + a.drop_first());
        assert(b =~= seq![b[0]] + b.drop_first());
    }
}

/// Whether `a` comes before `b` or equals it (`a <= b` on `str`).
pub fn text_less_or_equal(a: &str, b: &str) -> (r: bool)
    ensures
        r == text_le(a@, b@),
        r <==> is_prefix_of(a@, b@) || exists|i: int| #[trigger] first_difference_below(a@, b@, i),
{
    proof {
        lemma_text_le_lexicographic(a@, b@);
    }
    let n = a.unicode_len();
    let m = b.unicode_len();
    let mut i: usize = 0;
    while i < n && i < m
        invariant
            n == a@.len(),
            m == b@.len(),
            i <= n,
            i <= m,
            text_le(a@, b@) == text_le(a@.skip(i as int), b@.skip(i as int)),
        decreases n - i,
    {
        let x = a.get_char(i);
        let y = b.get_char(i);
        if x != y {
            proof {
                lemma_text_le_lexicographic(a@, b@);
            }
            return x < y;
        }
        proof {
            assert(a@.skip(i as int).drop_first() =~= a@.skip(i + 1));
            assert(b@.skip(i as int).drop_first() =~= b@.skip(i + 1));
        }
        i = i + 1;
    }
    i == n
}

/// The texts of a sequence of strings.
pub open spec fn string_texts(v: Seq<String>) -> Seq<Seq<char>> {
    v.map_values(|s: String| s@)
}

/// Texts in non-decreasing order.
pub open spec fn texts_sorted(s: Seq<Seq<char>>) -> bool {
    forall|i: int, j: int| 0 <= i < j < s.len() ==> text_le(#[trigger] s[i], #[trigger] s[j])
}

/// Inserts `x` into sorted texts after every text not above it.
fn insert_sorted_string(out: &mut Vec<String>, x: String)
    requires
        texts_sorted(string_texts(old(out)@)),
    ensures
        texts_sorted(string_texts(final(out)@)),
        string_texts(final(out)@).to_multiset() == string_texts(old(out)@).to_multiset().insert(
            x@,
        ),
{
    let mut p = out.len();
    while p > 0 && !text_less_or_equal(out[p - 1].as_str(), x.as_str())
        invariant
            p <= out@.len(),
            texts_sorted(string_texts(out@)),
            forall|k: int| p <= k < out@.len() ==> !text_le(#[trigger] out@[k]@, x@),
        decreases p,
    {
        p = p - 1;
    }
    let ghost before = out@;
    proof {
        assert forall|k: int| 0 <= k < p implies text_le(#[trigger] before[k]@, x@) by {
            if k < p - 1 {
                assert(text_le(string_texts(before)[k], string_texts(before)[p - 1]));
                lemma_text_le_transitive(before[k]@, before[p - 1]@, x@);
            }
        }
        assert forall|k: int| p <= k < before.len() implies text_le(x@, #[trigger] before[k]@) by {
            lemma_text_le_total(before[k]@, x@);
        }
    }
    out.insert(p, x);
    proof {
        let t = string_texts(out@);
        assert(t =~= string_texts(before).insert(p as int, x@));
        assert forall|i: int, j: int| 0 <= i < j < t.len() implies text_le(
            #[trigger] t[i],
            #[trigger] t[j],
        ) by {
            let tb = string_texts(before);
            if j < p {
                assert(text_le(tb[i], tb[j]));
            } else if j == p {
                assert(t[i] == before[i]@);
            } else if i == p {
                assert(t[j] == before[j - 1]@);
            } else if i < p {
                assert(text_le(tb[i], tb[j - 1]));
            } else {
                assert(text_le(tb[i - 1], tb[j - 1]));
            }
        }
        vstd::seq_lib::to_multiset_insert(string_texts(before), p as int, x@);
    }
}

/// Sorts strings by their text (the order `Vec<String>::sort` gives).
pub fn sort_strings(items: Vec<String>) -> (r: Vec<String>)
    ensures
        texts_sorted(string_texts(r@)),
        string_texts(r@).to_multiset() == string_texts(items@).to_multiset(),
{
    let mut rest = items;
    let mut out: Vec<String> = Vec::new();
    let ghost all = string_texts(rest@);
    proof {
        assert(string_texts(out@).to_multiset() =~= Multiset::empty());
    }
    while rest.len() > 0
        invariant
            texts_sorted(string_texts(out@)),
            string_texts(out@).to_multiset().add(string_texts(rest@).to_multiset())
                == all.to_multiset(),
        decreases rest.len(),
    {
        let ghost before = rest@;
        let x = rest.remove(0);
        proof {
            assert(string_texts(rest@) =~= string_texts(before).remove(0));
            vstd::seq_lib::to_multiset_remove(string_texts(before), 0);
        }
        insert_sorted_string(&mut out, x);
        proof {
            assert(string_texts(out@).to_multiset().add(string_texts(rest@).to_multiset())
                =~= all.to_multiset());
        }
    }
    proof {
        assert(string_texts(rest@).to_multiset() =~= Multiset::empty());
    }
    out
}


/// Whether `b` starts with `a`.
pub open spec fn is_prefix_of(a: Seq<char>, b: Seq<char>) -> bool {
    a.len() <= b.len() && b.take(a.len() as int) == a
}

/// Whether `a` and `b` agree before position `i` and `a` has the smaller
/// character at `i`.
pub open spec fn first_difference_below(a: Seq<char>, b: Seq<char>, i: int) -> bool {
    &&& 0 <= i < a.len()
    &&& i < b.len()
    &&& a.take(i) == b.take(i)
    &&& a[i] < b[i]
}

/// The text order is the lexicographic order of `str`: `a` comes before or
/// equals `b` exactly when `a` is a prefix of `b`, or at the first position
/// where they differ `a` has the smaller character, whatever their lengths.
pub proof fn lemma_text_le_lexicographic(a: Seq<char>, b: Seq<char>)
    ensures
        text_le(a, b) <==> is_prefix_of(a, b) || exists|i: int| #[trigger]
            first_difference_below(a, b, i),
    decreases a.len(),
{
    if a.len() == 0 {
        assert(b.take(0) =~= a);
    } else if b.len() == 0 {
        assert(!is_prefix_of(a, b));
        assert(forall|i: int| !#[trigger] first_difference_below(a, b, i));
    } else if a[0] != b[0] {
        assert(!is_prefix_of(a, b)) by {
            if is_prefix_of(a, b) {
                assert(b.take(a.len() as int)[0] == b[0]);
            }
        }
        assert forall|i: int| #[trigger] first_difference_below(a, b, i) implies i == 0 by {
            if i > 0 {
                assert(a.take(i)[0] == b.take(i)[0]);
            }
        }
        if a[0] < b[0] {
            assert(a.take(0) =~= b.take(0));
            assert(first_difference_below(a, b, 0));
        }
    } else {
        let a1 = a.drop_first();
        let b1 = b.drop_first();
        lemma_text_le_lexicographic(a1, b1);
        assert(is_prefix_of(a, b) <==> is_prefix_of(a1, b1)) by {
            if is_prefix_of(a, b) {
                assert(b1.take(a1.len() as int) =~= b.take(a.len() as int).drop_first());
            }
            if is_prefix_of(a1, b1) {
                assert(b.take(a.len() as int) =~= seq![b[0]] + b1.take(a1.len() as int));
                assert(a =~= seq![a[0]] + a1);
            }
        }
        if exists|i: int| #[trigger] first_difference_below(a1, b1, i) {
            let i = choose|i: int| #[trigger] first_difference_below(a1, b1, i);
            assert(a.take(i + 1) =~= seq![a[0]] + a1.take(i));
            assert(b.take(i + 1) =~= seq![b[0]] + b1.take(i));
            assert(first_difference_below(a, b, i + 1));
        }
        if exists|i: int| #[trigger] first_difference_below(a, b, i) {
            let i = choose|i: int| #[trigger] first_difference_below(a, b, i);
            assert(i > 0) by {
                if i == 0 {
                    assert(a[0] < b[0]);
                }
            }
            assert(a1.take(i - 1) =~= a.take(i).drop_first());
            assert(b1.take(i - 1) =~= b.take(i).drop_first());
            assert(first_difference_below(a1, b1, i - 1));
        }
    }
}

/// For non-empty texts whose first characters differ, the first characters
/// alone decide the order, whatever the lengths; a proper prefix comes first.
pub proof fn lemma_text_le_first_character(a: Seq<char>, b: Seq<char>)
    ensures
        a.len() > 0 && b.len() > 0 && a[0] != b[0] ==> (text_le(a, b) <==> a[0] < b[0]),
        is_prefix_of(a, b) ==> text_le(a, b),
        is_prefix_of(a, b) && a.len() < b.len() ==> !text_le(b, a),
{
    lemma_text_le_lexicographic(a, b);
    lemma_text_le_lexicographic(b, a);
    if a.len() > 0 && b.len() > 0 && a[0] != b[0] {
        assert(!is_prefix_of(a, b)) by {
            if is_prefix_of(a, b) {
                assert(b.take(a.len() as int)[0] == b[0]);
            }
        }
        assert forall|i: int| #[trigger] first_difference_below(a, b, i) implies i == 0 by {
            if i > 0 {
                assert(a.take(i)[0] == b.take(i)[0]);
            }
        }
        if a[0] < b[0] {
            assert(a.take(0) =~= b.take(0));
            assert(first_difference_below(a, b, 0));
        }
    }
    if is_prefix_of(a, b) && a.len() < b.len() {
        assert(!is_prefix_of(b, a));
        assert forall|i: int| !#[trigger] first_difference_below(b, a, i) by {
            if first_difference_below(b, a, i) {
                assert(a[i] == b.take(a.len() as int)[i]);
            }
        }
    }
}

} // verus!
