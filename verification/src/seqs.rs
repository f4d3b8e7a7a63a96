//! Sequence helpers shared by the allow-list and the manager queue:
//! uniqueness of entries and removal by value.

use vstd::prelude::*;

verus! {

/// No value occurs twice in the sequence.
pub open spec fn no_dups<T>(s: Seq<T>) -> bool {
    forall|i: int, j: int| 0 <= i < j < s.len() ==> s[i] != s[j]
}

/// The sequence with every occurrence of `x` removed, the order of the other
/// values kept.
pub open spec fn remove_value<T>(s: Seq<T>, x: T) -> Seq<T>
    decreases s.len(),
{
    if s.len() == 0 {
        s
    } else {
        let rest = remove_value(s.drop_last(), x);
        if s.last() == x {
            rest
        } else {
            rest.push(s.last())
        }
    }
}

/// Removal keeps exactly the other values.
pub proof fn lemma_remove_value_contains<T>(s: Seq<T>, x: T, y: T)
    ensures
        remove_value(s, x).contains(y) <==> (s.contains(y) && y != x),
    decreases s.len(),
{
    if s.len() == 0 {
    } else {
        lemma_remove_value_contains(s.drop_last(), x, y);
        assert(s.drop_last().push(s.last()) =~= s);
        if s.contains(y) && y != x {
            let i = choose|i: int| 0 <= i < s.len() && s[i] == y;
            if i < s.len() - 1 {
                assert(s.drop_last()[i] == y);
            }
            if s.last() == x {
                assert(remove_value(s, x).contains(y));
            } else {
                let rest = remove_value(s.drop_last(), x);
                if s.last() == y {
                    assert(rest.push(s.last())[rest.len() as int] == y);
                } else {
                    assert(rest.contains(y));
                    let j = choose|j: int| 0 <= j < rest.len() && rest[j] == y;
                    assert(rest.push(s.last())[j] == y);
                }
            }
        }
        if remove_value(s, x).contains(y) {
            let rest = remove_value(s.drop_last(), x);
            if s.last() == x {
                assert(rest.contains(y));
                assert(s.drop_last().contains(y));
                let i = choose|i: int| 0 <= i < s.drop_last().len() && s.drop_last()[i] == y;
                assert(s[i] == y);
            } else {
                let j = choose|j: int|
                    0 <= j < rest.push(s.last()).len() && rest.push(s.last())[j] == y;
                if j < rest.len() {
                    assert(rest[j] == y);
                    assert(s.drop_last().contains(y));
                    let i = choose|i: int| 0 <= i < s.drop_last().len() && s.drop_last()[i] == y;
                    assert(s[i] == y);
                } else {
                    assert(s.last() == y);
                    assert(s[s.len() - 1] == y);
                }
            }
        }
    }
}

/// Removal from a duplicate-free sequence keeps it duplicate-free.
pub proof fn lemma_remove_value_no_dups<T>(s: Seq<T>, x: T)
    requires
        no_dups(s),
    ensures
        no_dups(remove_value(s, x)),
    decreases s.len(),
{
    if s.len() == 0 {
    } else {
        assert(no_dups(s.drop_last()));
        lemma_remove_value_no_dups(s.drop_last(), x);
        if s.last() != x {
            let rest = remove_value(s.drop_last(), x);
            lemma_remove_value_contains(s.drop_last(), x, s.last());
            assert(forall|i: int| 0 <= i < s.drop_last().len() ==> s.drop_last()[i] == s[i]);
            assert(!s.drop_last().contains(s.last())) by {
                if s.drop_last().contains(s.last()) {
                    let i = choose|i: int|
                        0 <= i < s.drop_last().len() && s.drop_last()[i] == s.last();
                    assert(s[i] == s[s.len() - 1]);
                }
            }
            assert(!rest.contains(s.last()));
            assert(forall|i: int, j: int|
                0 <= i < j < rest.push(s.last()).len() ==> rest.push(s.last())[i] != rest.push(
                    s.last(),
                )[j]) by {
                assert(forall|i: int| 0 <= i < rest.len() ==> rest.push(s.last())[i] == rest[i]);
                assert forall|i: int| 0 <= i < rest.len() implies rest[i] != s.last() by {
                    if rest[i] == s.last() {
                        assert(rest.contains(s.last()));
                    }
                }
            }
        }
    }
}

/// Removing a value that does not occur changes nothing.
pub proof fn lemma_remove_value_absent<T>(s: Seq<T>, x: T)
    requires
        !s.contains(x),
    ensures
        remove_value(s, x) == s,
    decreases s.len(),
{
    if s.len() == 0 {
        assert(remove_value(s, x) =~= s);
    } else {
        assert(forall|i: int| 0 <= i < s.drop_last().len() ==> s.drop_last()[i] == s[i]);
        assert(!s.drop_last().contains(x)) by {
            if s.drop_last().contains(x) {
                let i = choose|i: int| 0 <= i < s.drop_last().len() && s.drop_last()[i] == x;
                assert(s[i] == x);
            }
        }
        lemma_remove_value_absent(s.drop_last(), x);
        assert(s.last() != x) by {
            if s.last() == x {
                assert(s[s.len() - 1] == x);
            }
        }
        assert(remove_value(s, x) =~= s);
    }
}

/// A prefix of a duplicate-free sequence, extended by a value the sequence
/// does not hold, is duplicate-free.
pub proof fn lemma_no_dups_push<T>(s: Seq<T>, x: T)
    requires
        no_dups(s),
        !s.contains(x),
    ensures
        no_dups(s.push(x)),
{
    assert(forall|i: int| 0 <= i < s.len() ==> s.push(x)[i] == s[i]);
    assert forall|i: int| 0 <= i < s.len() implies s[i] != x by {
        if s[i] == x {
            assert(s.contains(x));
        }
    }
}

} // verus!
