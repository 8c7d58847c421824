use vstd::prelude::*;

verus! {

/// The sequence `s` with every occurrence of `x` filtered out, the relative
/// order of the remaining elements preserved.
pub open spec fn remove_all<A>(s: Seq<A>, x: A) -> Seq<A>
    decreases s.len(),
{
    if s.len() == 0 {
        Seq::empty()
    } else {
        let rest = remove_all(s.drop_last(), x);
        if s.last() == x {
            rest
        } else {
            rest.push(s.last())
        }
    }
}

/// How many times `x` occurs in `s`.
pub open spec fn count_of<A>(s: Seq<A>, x: A) -> nat
    decreases s.len(),
{
    if s.len() == 0 {
        0
    } else {
        count_of(s.drop_last(), x) + if s.last() == x {
            1nat
        } else {
            0nat
        }
    }
}

/// Membership in a non-empty sequence splits into membership in its prefix
/// or equality with its last element.
pub proof fn lemma_contains_split<A>(s: Seq<A>, y: A)
    requires
        s.len() > 0,
    ensures
        s.contains(y) <==> (s.drop_last().contains(y) || y == s.last()),
{
    if s.contains(y) {
        let i = choose|i: int| 0 <= i < s.len() && s[i] == y;
        if i < s.len() - 1 {
            assert(s.drop_last()[i] == y);
        } else {
            assert(y == s.last());
        }
    }
    if s.drop_last().contains(y) {
        let i = choose|i: int| 0 <= i < s.drop_last().len() && s.drop_last()[i] == y;
        assert(s[i] == y);
    }
    if y == s.last() {
        assert(s[s.len() - 1] == y);
    }
}

/// Membership after a push splits into membership before or equality with
/// the pushed element.
pub proof fn lemma_push_membership<A>(s: Seq<A>, v: A)
    ensures
        forall|y: A| #[trigger] s.push(v).contains(y) <==> (s.contains(y) || y == v),
{
    assert forall|y: A| #[trigger] s.push(v).contains(y) <==> (s.contains(y) || y == v) by {
        assert(s.push(v).drop_last() =~= s);
        assert(s.push(v).last() == v);
        lemma_contains_split(s.push(v), y);
    }
}

/// Pushing an absent element keeps a sequence duplicate-free.
pub proof fn lemma_push_no_duplicates<A>(s: Seq<A>, v: A)
    requires
        s.no_duplicates(),
        !s.contains(v),
    ensures
        s.push(v).no_duplicates(),
{
    let r = s.push(v);
    assert forall|i: int, j: int|
        0 <= i < r.len() && 0 <= j < r.len() && i != j implies r[i] != r[j] by {
        if i < s.len() && j < s.len() {
            assert(r[i] == s[i] && r[j] == s[j]);
        } else if i == s.len() {
            assert(r[i] == v && r[j] == s[j]);
            if s[j] == v {
                assert(s.contains(v));
            }
        } else {
            assert(r[j] == v && r[i] == s[i]);
            if s[i] == v {
                assert(s.contains(v));
            }
        }
    }
}

/// An element survives `remove_all` exactly when it was present and is not
/// the removed one.
pub proof fn lemma_remove_all_mem<A>(s: Seq<A>, x: A, y: A)
    ensures
        remove_all(s, x).contains(y) <==> (s.contains(y) && y != x),
    decreases s.len(),
{
    if s.len() == 0 {
    } else {
        lemma_remove_all_mem(s.drop_last(), x, y);
        lemma_contains_split(s, y);
        let rd = remove_all(s.drop_last(), x);
        if s.last() == x {
            assert(remove_all(s, x) == rd);
        } else {
            let r = rd.push(s.last());
            assert(remove_all(s, x) == r);
            assert(r.drop_last() =~= rd);
            assert(r.last() == s.last());
            lemma_contains_split(r, y);
        }
    }
}

/// The quantified form of `lemma_remove_all_mem`.
pub proof fn lemma_remove_all_membership<A>(s: Seq<A>, x: A)
    ensures
        forall|y: A| #[trigger] remove_all(s, x).contains(y) <==> (s.contains(y) && y != x),
{
    assert forall|y: A| #[trigger]
        remove_all(s, x).contains(y) <==> (s.contains(y) && y != x) by {
        lemma_remove_all_mem(s, x, y);
    }
}

/// `remove_all` never introduces a duplicate.
pub proof fn lemma_remove_all_no_duplicates<A>(s: Seq<A>, x: A)
    requires
        s.no_duplicates(),
    ensures
        remove_all(s, x).no_duplicates(),
    decreases s.len(),
{
    if s.len() == 0 {
    } else {
        assert(s.drop_last().no_duplicates());
        lemma_remove_all_no_duplicates(s.drop_last(), x);
        if s.last() != x {
            let rd = remove_all(s.drop_last(), x);
            lemma_remove_all_mem(s.drop_last(), x, s.last());
            if s.drop_last().contains(s.last()) {
                let j = choose|j: int|
                    0 <= j < s.drop_last().len() && s.drop_last()[j] == s.last();
                assert(s[j] == s[s.len() - 1]);
                assert(false);
            }
            assert(!rd.contains(s.last()));
            let r = rd.push(s.last());
            assert forall|i: int, j: int|
                0 <= i < j < r.len() implies r[i] != r[j] by {
                if j < r.len() - 1 {
                    assert(r[i] == rd[i] && r[j] == rd[j]);
                } else {
                    assert(r[j] == s.last());
                    assert(r[i] == rd[i]);
                    if rd[i] == s.last() {
                        assert(rd.contains(s.last()));
                    }
                }
            }
        }
    }
}

/// Removing an absent element changes nothing.
pub proof fn lemma_remove_all_absent<A>(s: Seq<A>, x: A)
    requires
        !s.contains(x),
    ensures
        remove_all(s, x) == s,
    decreases s.len(),
{
    if s.len() == 0 {
        assert(remove_all(s, x) =~= s);
    } else {
        lemma_contains_split(s, x);
        lemma_remove_all_absent(s.drop_last(), x);
        assert(remove_all(s, x) =~= s);
    }
}

/// An absent element occurs zero times.
pub proof fn lemma_count_of_absent<A>(s: Seq<A>, x: A)
    requires
        !s.contains(x),
    ensures
        count_of(s, x) == 0,
    decreases s.len(),
{
    if s.len() == 0 {
    } else {
        lemma_contains_split(s, x);
        lemma_count_of_absent(s.drop_last(), x);
    }
}

/// In a duplicate-free sequence every present element occurs exactly once.
pub proof fn lemma_count_of_no_duplicates<A>(s: Seq<A>, x: A)
    requires
        s.no_duplicates(),
        s.contains(x),
    ensures
        count_of(s, x) == 1,
    decreases s.len(),
{
    if s.len() == 0 {
    } else {
        assert(s.drop_last().no_duplicates());
        lemma_contains_split(s, x);
        if s.last() == x {
            if s.drop_last().contains(x) {
                let j = choose|j: int| 0 <= j < s.drop_last().len() && s.drop_last()[j] == x;
                assert(s[j] == s[s.len() - 1]);
                assert(false);
            }
            lemma_count_of_absent(s.drop_last(), x);
        } else {
            lemma_count_of_no_duplicates(s.drop_last(), x);
        }
    }
}

} // verus!
