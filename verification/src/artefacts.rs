//! The artefact list: insertion-ordered, deduplicated before archival.

use vstd::prelude::*;

verus! {

/// The character sequences behind a sequence of strings.
pub open spec fn views(v: Seq<String>) -> Seq<Seq<char>> {
    v.map_values(|s: String| s@)
}

/// First-occurrence deduplication: each element keeps its earliest position
/// and later repeats are dropped.
pub open spec fn dedup_spec(s: Seq<Seq<char>>) -> Seq<Seq<char>>
    decreases s.len(),
{
    if s.len() == 0 {
        Seq::<Seq<char>>::empty()
    } else {
        let pre = dedup_spec(s.drop_last());
        if pre.contains(s.last()) {
            pre
        } else {
            pre.push(s.last())
        }
    }
}

/// The law of deduplication: the result has no duplicates, holds exactly the
/// set of elements of the input, and therefore has exactly as many entries
/// as the input has distinct elements.
pub proof fn lemma_dedup_law(s: Seq<Seq<char>>)
    ensures
        dedup_spec(s).no_duplicates(),
        dedup_spec(s).to_set() == s.to_set(),
        dedup_spec(s).len() == s.to_set().len(),
    decreases s.len(),
{
    if s.len() == 0 {
        assert(dedup_spec(s).to_set() =~= s.to_set());
        s.unique_seq_to_set();
    } else {
        let pre = dedup_spec(s.drop_last());
        lemma_dedup_law(s.drop_last());
        assert(s =~= s.drop_last().push(s.last()));
        assert(s.to_set() =~= s.drop_last().to_set().insert(s.last()));
        if pre.contains(s.last()) {
            assert(s.drop_last().to_set().contains(s.last()));
            assert(dedup_spec(s).to_set() =~= s.to_set());
        } else {
            assert(dedup_spec(s) == pre.push(s.last()));
            assert(forall|i: int, j: int|
                0 <= i < pre.push(s.last()).len() && 0 <= j < pre.push(s.last()).len() && i != j
                    ==> pre.push(s.last())[i] != pre.push(s.last())[j]) by {
                assert(forall|i: int| 0 <= i < pre.len() ==> pre.push(s.last())[i] == pre[i]);
            }
            pre.lemma_push_to_set_commute(s.last());
            s.drop_last().lemma_push_to_set_commute(s.last());
            assert(dedup_spec(s).to_set() =~= s.to_set());
        }
        dedup_spec(s).unique_seq_to_set();
    }
}

/// The first occurrence of an element of a sequence's prefix sits at the
/// same index whether it is sought in the prefix or in the whole sequence.
proof fn lemma_index_of_first_extend(s: Seq<Seq<char>>, x: Seq<char>)
    requires
        s.len() > 0,
        s.drop_last().contains(x),
    ensures
        s.contains(x),
        s.index_of_first(x) == s.drop_last().index_of_first(x),
{
    let pre = s.drop_last();
    let m = choose|m: int| 0 <= m < pre.len() && pre[m] == x;
    assert(s[m] == x);
    assert(s.contains(x));
    s.index_of_first_ensures(x);
    pre.index_of_first_ensures(x);
    let k_whole = s.index_of_first(x).unwrap();
    let k_pre = pre.index_of_first(x).unwrap();
    if k_whole < k_pre {
        assert(pre[k_whole] == s[k_whole]);
    }
    if k_pre < k_whole {
        assert(s[k_pre] == pre[k_pre]);
    }
}

/// Deduplication keeps the order of first occurrences: of two kept
/// elements, the one kept earlier occurs first in the input.
pub proof fn lemma_dedup_order(s: Seq<Seq<char>>, i: int, j: int)
    requires
        0 <= i < j < dedup_spec(s).len(),
    ensures
        s.index_of_first(dedup_spec(s)[i]) is Some,
        s.index_of_first(dedup_spec(s)[j]) is Some,
        s.index_of_first(dedup_spec(s)[i]).unwrap() < s.index_of_first(dedup_spec(s)[j]).unwrap(),
    decreases s.len(),
{
    let d = dedup_spec(s);
    let pre = dedup_spec(s.drop_last());
    lemma_dedup_law(s.drop_last());
    if pre.contains(s.last()) {
        lemma_dedup_order(s.drop_last(), i, j);
        assert(s.drop_last().contains(d[i])) by {
            assert(s.drop_last().to_set().contains(d[i]));
        }
        assert(s.drop_last().contains(d[j])) by {
            assert(s.drop_last().to_set().contains(d[j]));
        }
        lemma_index_of_first_extend(s, d[i]);
        lemma_index_of_first_extend(s, d[j]);
    } else {
        assert(d == pre.push(s.last()));
        if j < pre.len() {
            lemma_dedup_order(s.drop_last(), i, j);
            assert(d[i] == pre[i] && d[j] == pre[j]);
            assert(s.drop_last().contains(d[i])) by {
                assert(s.drop_last().to_set().contains(d[i]));
            }
            assert(s.drop_last().contains(d[j])) by {
                assert(s.drop_last().to_set().contains(d[j]));
            }
            lemma_index_of_first_extend(s, d[i]);
            lemma_index_of_first_extend(s, d[j]);
        } else {
            assert(j == pre.len() && d[j] == s.last());
            assert(d[i] == pre[i]);
            assert(s.drop_last().contains(d[i])) by {
                assert(pre.to_set().contains(d[i]));
            }
            lemma_index_of_first_extend(s, d[i]);
            s.drop_last().index_of_first_ensures(d[i]);
            let k_i = s.index_of_first(d[i]).unwrap();
            assert(k_i < s.len() - 1);
            assert(s[s.len() - 1] == s.last());
            assert(s.contains(s.last()));
            s.index_of_first_ensures(s.last());
            let k_j = s.index_of_first(s.last()).unwrap();
            assert(!s.drop_last().contains(s.last())) by {
                assert(!s.drop_last().to_set().contains(s.last()));
            }
            if k_j < s.len() - 1 {
                assert(s.drop_last()[k_j] == s.last());
                assert(s.drop_last().contains(s.last()));
            }
            assert(k_j == s.len() - 1);
        }
    }
}

/// Appending one element extends a filtered sequence by that element
/// exactly when the element passes the filter.
pub proof fn lemma_filter_push<A>(s: Seq<A>, x: A, pred: spec_fn(A) -> bool)
    ensures
        (s + seq![x]).filter(pred) == (if pred(x) {
            s.filter(pred).push(x)
        } else {
            s.filter(pred)
        }),
{
    Seq::<A>::filter_distributes_over_add(s, seq![x], pred);
    assert(seq![x].drop_last() =~= Seq::<A>::empty());
    assert(seq![x].filter(pred) =~= (if pred(x) {
        seq![x]
    } else {
        Seq::<A>::empty()
    })) by {
        reveal_with_fuel(Seq::filter, 2);
    }
    if pred(x) {
        assert(s.filter(pred) + seq![x] =~= s.filter(pred).push(x));
    } else {
        assert(s.filter(pred) + Seq::<A>::empty() =~= s.filter(pred));
    }
}

/// A sequence whose elements all pass a filter is unchanged by it.
pub proof fn lemma_filter_all<A>(s: Seq<A>, pred: spec_fn(A) -> bool)
    requires
        forall|i: int| 0 <= i < s.len() ==> pred(#[trigger] s[i]),
    ensures
        s.filter(pred) == s,
    decreases s.len(),
{
    reveal(Seq::filter);
    if s.len() > 0 {
        lemma_filter_all(s.drop_last(), pred);
        assert(s.filter(pred) =~= s);
    } else {
        assert(s.filter(pred) =~= s);
    }
}

/// Whether some string in `v` reads as `s` does.
pub fn contains_string(v: &Vec<String>, s: &String) -> (r: bool)
    ensures
        r == views(v@).contains(s@),
{
    let mut i: usize = 0;
    while i < v.len()
        invariant
            i <= v@.len(),
            forall|k: int| 0 <= k < i ==> views(v@)[k] != s@,
        decreases v@.len() - i,
    {
        if v[i] == *s {
            proof {
                assert(views(v@)[i as int] == s@);
            }
            return true;
        }
        i = i + 1;
    }
    false
}

/// Drop duplicate artefact strings, keeping first occurrences in order.
pub fn dedup_artefacts(list: &Vec<String>) -> (r: Vec<String>)
    ensures
        views(r@) == dedup_spec(views(list@)),
{
    let mut out: Vec<String> = Vec::new();
    let mut i: usize = 0;
    proof {
        assert(views(list@.subrange(0, 0)) =~= Seq::<Seq<char>>::empty());
    }
    while i < list.len()
        invariant
            i <= list.len(),
            views(out@) == dedup_spec(views(list@.subrange(0, i as int))),
        decreases list.len() - i,
    {
        let a = &list[i];
        let mut seen = false;
        let mut j: usize = 0;
        while j < out.len()
            invariant
                j <= out.len(),
                seen == exists|k: int| 0 <= k < j && views(out@)[k] == a@,
            decreases out.len() - j,
        {
            if out[j] == *a {
                proof {
                    assert(views(out@)[j as int] == a@);
                }
                seen = true;
            }
            j = j + 1;
        }
        let ghost prefix = views(list@.subrange(0, i as int));
        let ghost full = views(list@.subrange(0, i + 1));
        proof {
            assert(full =~= prefix.push(list@[i as int]@));
            assert(full.drop_last() =~= prefix);
            assert(seen == views(out@).contains(a@));
        }
        if !seen {
            out.push(a.clone());
            proof {
                assert(views(out@) =~= dedup_spec(prefix).push(list@[i as int]@));
            }
        }
        i = i + 1;
    }
    proof {
        assert(list@.subrange(0, list@.len() as int) =~= list@);
    }
    out
}

} // verus!
