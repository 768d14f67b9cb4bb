//! The order of file names, and sorting a list of names in it.
//!
//! `String`'s order compares the UTF-8 bytes, which orders strings the same
//! way as comparing their characters one by one; that character order is
//! the model here.

use vstd::prelude::*;

verus! {

broadcast use vstd::seq_lib::group_to_multiset_ensures;

/// `a` comes before `b`, or equals it, in the order of `String`: compare
/// character by character; a proper prefix comes first.
pub open spec fn lex_le(a: Seq<char>, b: Seq<char>) -> bool
    decreases a.len(),
{
    if a.len() == 0 {
        true
    } else if b.len() == 0 {
        false
    } else if a[0] != b[0] {
        a[0] < b[0]
    } else {
        lex_le(a.drop_first(), b.drop_first())
    }
}

/// The texts of a list of strings.
pub open spec fn texts(v: Seq<String>) -> Seq<Seq<char>> {
    v.map_values(|s: String| s@)
}

/// Each text comes before, or equals, every text after it.
pub open spec fn is_sorted(s: Seq<Seq<char>>) -> bool {
    forall|i: int, j: int| 0 <= i < j < s.len() ==> lex_le(#[trigger] s[i], #[trigger] s[j])
}

/// The order is reflexive.
pub proof fn lemma_lex_reflexive(a: Seq<char>)
    ensures
        lex_le(a, a),
    decreases a.len(),
{
    if a.len() > 0 {
        lemma_lex_reflexive(a.drop_first());
    }
}

/// The order is total: of two texts, one comes first.
pub proof fn lemma_lex_total(a: Seq<char>, b: Seq<char>)
    ensures
        lex_le(a, b) || lex_le(b, a),
    decreases a.len(),
{
    if a.len() > 0 && b.len() > 0 && a[0] == b[0] {
        lemma_lex_total(a.drop_first(), b.drop_first());
    }
}

/// The order is transitive.
pub proof fn lemma_lex_transitive(a: Seq<char>, b: Seq<char>, c: Seq<char>)
    requires
        lex_le(a, b),
        lex_le(b, c),
    ensures
        lex_le(a, c),
    decreases a.len(),
{
    if a.len() > 0 && b.len() > 0 && c.len() > 0 && a[0] == b[0] && b[0] == c[0] {
        lemma_lex_transitive(a.drop_first(), b.drop_first(), c.drop_first());
    }
}

/// The order is antisymmetric: two texts that come before each other are equal.
pub proof fn lemma_lex_antisymmetric(a: Seq<char>, b: Seq<char>)
    requires
        lex_le(a, b),
        lex_le(b, a),
    ensures
        a == b,
    decreases a.len(),
{
    if a.len() > 0 && b.len() > 0 {
        lemma_lex_antisymmetric(a.drop_first(), b.drop_first());
        assert(a =~= seq![a[0]] + a.drop_first());
        assert(b =~= seq![b[0]] + b.drop_first());
    } else {
        assert(a =~= b);
    }
}

/// Sorting is determined by the texts alone: two sorted lists that hold the
/// same texts, each as often, are the same list.
pub proof fn lemma_sorted_unique(a: Seq<Seq<char>>, b: Seq<Seq<char>>)
    requires
        is_sorted(a),
        is_sorted(b),
        a.to_multiset() == b.to_multiset(),
    ensures
        a == b,
    decreases a.len(),
{
    broadcast use vstd::multiset::group_multiset_axioms;

    vstd::seq_lib::to_multiset_len(a);
    vstd::seq_lib::to_multiset_len(b);
    if a.len() == 0 {
        assert(a =~= b);
    } else {
        vstd::seq_lib::to_multiset_contains(a, a[0]);
        vstd::seq_lib::to_multiset_contains(b, b[0]);
        vstd::seq_lib::to_multiset_contains(b, a[0]);
        vstd::seq_lib::to_multiset_contains(a, b[0]);
        let j = choose|j: int| 0 <= j < b.len() && b[j] == a[0];
        let k = choose|k: int| 0 <= k < a.len() && a[k] == b[0];
        if j > 0 {
            assert(lex_le(b[0], b[j]));
        } else {
            lemma_lex_reflexive(b[0]);
        }
        if k > 0 {
            assert(lex_le(a[0], a[k]));
        } else {
            lemma_lex_reflexive(a[0]);
        }
        lemma_lex_antisymmetric(a[0], b[0]);
        let ra = a.drop_first();
        let rb = b.drop_first();
        assert(a.remove(0) =~= ra);
        assert(b.remove(0) =~= rb);
        vstd::seq_lib::to_multiset_remove(a, 0);
        vstd::seq_lib::to_multiset_remove(b, 0);
        assert forall|i: int, m: int| 0 <= i < m < ra.len() implies lex_le(
            #[trigger] ra[i],
            #[trigger] ra[m],
        ) by {
            assert(ra[i] == a[i + 1] && ra[m] == a[m + 1]);
        }
        assert forall|i: int, m: int| 0 <= i < m < rb.len() implies lex_le(
            #[trigger] rb[i],
            #[trigger] rb[m],
        ) by {
            assert(rb[i] == b[i + 1] && rb[m] == b[m + 1]);
        }
        lemma_sorted_unique(ra, rb);
        assert(a =~= b) by {
            assert forall|i: int| 0 <= i < a.len() implies a[i] == b[i] by {
                if i > 0 {
                    assert(a[i] == ra[i - 1] && b[i] == rb[i - 1]);
                }
            }
        }
    }
}

/// Compares two texts in the order of `String`: `a <= b`.
pub fn text_le(a: &str, b: &str) -> (r: bool)
    ensures
        r == lex_le(a@, b@),
{
    let na = a.unicode_len();
    let nb = b.unicode_len();
    let mut i: usize = 0;
    assert(a@.skip(0) =~= a@);
    assert(b@.skip(0) =~= b@);
    while i < na && i < nb
        invariant
            na == a@.len(),
            nb == b@.len(),
            i <= na,
            i <= nb,
            lex_le(a@, b@) == lex_le(a@.skip(i as int), b@.skip(i as int)),
        decreases na - i,
    {
        let ca = a.get_char(i);
        let cb = b.get_char(i);
        assert(a@.skip(i as int)[0] == ca);
        assert(b@.skip(i as int)[0] == cb);
        if ca != cb {
            return ca < cb;
        }
        assert(a@.skip(i as int).drop_first() =~= a@.skip(i + 1));
        assert(b@.skip(i as int).drop_first() =~= b@.skip(i + 1));
        i = i + 1;
    }
    i == na
}

/// The position of a least text of a non-empty list.
fn position_of_least(v: &Vec<String>) -> (m: usize)
    requires
        v@.len() > 0,
    ensures
        m < v@.len(),
        forall|j: int| 0 <= j < v@.len() ==> lex_le(v@[m as int]@, #[trigger] v@[j]@),
{
    let mut m: usize = 0;
    let mut i: usize = 1;
    proof {
        lemma_lex_reflexive(v@[0]@);
    }
    while i < v.len()
        invariant
            0 < i <= v@.len(),
            m < i,
            forall|j: int| 0 <= j < i ==> lex_le(v@[m as int]@, #[trigger] v@[j]@),
        decreases v@.len() - i,
    {
        if !text_le(v[m].as_str(), v[i].as_str()) {
            proof {
                lemma_lex_total(v@[m as int]@, v@[i as int]@);
                assert forall|j: int| 0 <= j < i + 1 implies lex_le(
                    v@[i as int]@,
                    #[trigger] v@[j]@,
                ) by {
                    if j < i {
                        lemma_lex_transitive(v@[i as int]@, v@[m as int]@, v@[j]@);
                    } else {
                        lemma_lex_reflexive(v@[i as int]@);
                    }
                }
            }
            m = i;
        }
        i = i + 1;
    }
    m
}

/// Sorts file names in ascending order, as `Vec::<String>::sort` does: the
/// result holds the same names, each as often, in order.
pub fn sort_names(v: Vec<String>) -> (r: Vec<String>)
    ensures
        is_sorted(texts(r@)),
        texts(r@).to_multiset() == texts(v@).to_multiset(),
        r@.len() == v@.len(),
{
    broadcast use vstd::multiset::group_multiset_axioms;

    let ghost given = texts(v@);
    let mut rest = v;
    let mut out: Vec<String> = Vec::new();
    assert(texts(out@).to_multiset() =~= vstd::multiset::Multiset::empty());
    assert(texts(rest@) == given);
    while rest.len() > 0
        invariant
            is_sorted(texts(out@)),
            forall|i: int, j: int|
                0 <= i < out@.len() && 0 <= j < rest@.len() ==> lex_le(
                    #[trigger] out@[i]@,
                    #[trigger] rest@[j]@,
                ),
            texts(out@).to_multiset().add(texts(rest@).to_multiset()) == given.to_multiset(),
            out@.len() + rest@.len() == given.len(),
        decreases rest@.len(),
    {
        let m = position_of_least(&rest);
        let ghost before_rest = rest@;
        let ghost before_out = out@;
        let x = rest.remove(m);
        out.push(x);
        proof {
            assert(texts(rest@) =~= texts(before_rest).remove(m as int));
            assert(texts(out@) =~= texts(before_out).push(x@));
            assert(texts(before_rest)[m as int] == x@);
            assert(texts(out@).to_multiset().add(texts(rest@).to_multiset())
                =~= texts(before_out).to_multiset().add(texts(before_rest).to_multiset()));
            assert forall|i: int, j: int|
                0 <= i < j < texts(out@).len() implies lex_le(
                #[trigger] texts(out@)[i],
                #[trigger] texts(out@)[j],
            ) by {
                if j == out@.len() - 1 {
                    assert(texts(out@)[j] == before_rest[m as int]@);
                    assert(texts(out@)[i] == before_out[i]@);
                } else {
                    assert(texts(out@)[i] == texts(before_out)[i]);
                    assert(texts(out@)[j] == texts(before_out)[j]);
                }
            }
            assert forall|i: int, j: int|
                0 <= i < out@.len() && 0 <= j < rest@.len() implies lex_le(
                #[trigger] out@[i]@,
                #[trigger] rest@[j]@,
            ) by {
                let k = if j < m { j } else { j + 1 };
                assert(rest@[j] == before_rest[k]);
                if i == out@.len() - 1 {
                    assert(out@[i] == before_rest[m as int]);
                } else {
                    assert(out@[i] == before_out[i]);
                }
            }
        }
    }
    assert(texts(rest@).to_multiset() =~= vstd::multiset::Multiset::empty());
    assert(texts(out@).to_multiset().add(vstd::multiset::Multiset::empty()) =~= texts(out@).to_multiset());
    out
}

} // verus!
